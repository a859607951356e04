use vstd::prelude::*;
use crate::json::{compact_text, get_spec, i64_spec, opt_text, str_spec, to_compact_text, JsonValue};
use crate::models::{StickerImportEvent, StickerRecord, SyncKeyItem, WechatLoginState, WechatQrResult};
use crate::store::{data_url, data_url_spec, sniff_image_mime, sniffed_mime, AddResult};
use crate::patterns::{
    is_token_char, regex_capture, regex_capture_all, regex_escape, regex_escaped, regex_every_group,
    regex_every_match, regex_find_all, regex_first_group, regex_is_match, regex_matches,
};
use crate::text::{
    chars_of, concat, contains, decimal, i64_to_decimal, join_texts, join_with, owned, prefix_chars, signed_decimal, take_chars, parse_u64, parsed_i64, parsed_u64, u64_to_decimal, replace_all, replace_str, starts_with,
    str_contains, str_eq, str_starts_with, string_from, to_lowercase, trim, trim_end_char,
    trim_end_matches_char, trim_str, unicode_lowercase,
};
use crate::web::{
    pair_text, parse_url, percent_decode, percent_decoded, percent_encode, percent_encoded,
    strip_query, url_error_text, url_parses, url_query_pairs, url_with_pairs,
    url_without_query, with_query_pairs,
};

verus! {

// ------------------------------------------------------------------
// Login state
// ------------------------------------------------------------------

/// A login state with the given name.
pub fn login_state(state: &str) -> (r: WechatLoginState)
    ensures
        r.state@ == state@,
{
    WechatLoginState { state: owned(state) }
}

// ------------------------------------------------------------------
// Script and XML fields of the login pages
// ------------------------------------------------------------------

/// The pattern of `window.code = N` in the login poll answer.
pub open spec fn code_pattern() -> Seq<char> {
    r"window\.code\s*=\s*(\d+)"@
}

/// The number assigned to `window.code`, when it parses as an `i64`.
pub open spec fn script_number(text: Seq<char>) -> Option<i64> {
    match regex_first_group(code_pattern(), text) {
        Some(digits) => parsed_i64(digits),
        None => None,
    }
}

/// The number assigned to `window.code` in a login script.
pub fn parse_script_number(text: &str) -> (r: Option<i64>)
    ensures
        r == script_number(text@),
{
    let digits = regex_capture(r"window\.code\s*=\s*(\d+)", text);
    match digits {
        Some(d) => crate::text::parse_i64(d.as_str()),
        None => None,
    }
}

/// The pattern of `field = "value"` for an already escaped field name.
pub open spec fn assignment_pattern(escaped_field: Seq<char>) -> Seq<char> {
    escaped_field + r#"\s*=\s*"([^"]+)""#@
}

/// The non-empty string assigned to `field` in a login script.
pub open spec fn script_string(text: Seq<char>, field: Seq<char>) -> Option<Seq<char>> {
    regex_first_group(assignment_pattern(regex_escaped(field)), text)
}

/// The non-empty string literal assigned to `field` in a login script.
pub fn parse_script_string(text: &str, field: &str) -> (r: Option<String>)
    ensures
        opt_text(r) == script_string(text@, field@),
{
    let escaped = regex_escape(field);
    let pattern = concat(escaped.as_str(), r#"\s*=\s*"([^"]+)""#);
    regex_capture(pattern.as_str(), text)
}

/// The pattern of `<tag><![CDATA[value]]></tag>` for an escaped tag.
pub open spec fn cdata_pattern(e: Seq<char>) -> Seq<char> {
    r"(?s)<"@ + e + r"><!\[CDATA\[(.*?)\]\]></"@ + e + r">"@
}

/// The pattern of `<tag>value</tag>` for an escaped tag.
pub open spec fn plain_pattern(e: Seq<char>) -> Seq<char> {
    r"<"@ + e + r">([^<]*)</"@ + e + r">"@
}

/// The raw text of the first `tag` element: its CDATA section when there is
/// one, else its plain text, else nothing.
pub open spec fn xml_field_raw(xml: Seq<char>, tag: Seq<char>) -> Seq<char> {
    let e = regex_escaped(tag);
    match regex_first_group(cdata_pattern(e), xml) {
        Some(v) => v,
        None => match regex_first_group(plain_pattern(e), xml) {
            Some(v) => v,
            None => Seq::empty(),
        },
    }
}

/// The value of the first `tag` element, percent-decoded when it decodes.
pub open spec fn xml_field(xml: Seq<char>, tag: Seq<char>) -> Seq<char> {
    let raw = xml_field_raw(xml, tag);
    match percent_decoded(raw) {
        Some(d) => d,
        None => raw,
    }
}

/// The value of the first `tag` element of the login XML.
pub fn parse_xml_field(xml: &str, tag: &str) -> (r: String)
    ensures
        r@ == xml_field(xml@, tag@),
{
    let escaped = regex_escape(tag);
    let c1 = concat(r"(?s)<", escaped.as_str());
    let c2 = concat(c1.as_str(), r"><!\[CDATA\[(.*?)\]\]></");
    let c3 = concat(c2.as_str(), escaped.as_str());
    let cdata = concat(c3.as_str(), r">");
    let p1 = concat(r"<", escaped.as_str());
    let p2 = concat(p1.as_str(), r">([^<]*)</");
    let p3 = concat(p2.as_str(), escaped.as_str());
    let plain = concat(p3.as_str(), r">");
    let from_cdata = regex_capture(cdata.as_str(), xml);
    let from_plain = regex_capture(plain.as_str(), xml);
    let raw = xml_field_text(from_cdata, from_plain);
    let decoded = percent_decode(raw.as_str());
    decoded_or_raw(decoded, raw)
}

/// The raw text of an element: its CDATA section when there is one, else
/// its plain text, else nothing.
pub fn xml_field_text(cdata: Option<String>, plain: Option<String>) -> (r: String)
    ensures
        r@ == match opt_text(cdata) {
            Some(v) => v,
            None => match opt_text(plain) {
                Some(v) => v,
                None => Seq::empty(),
            },
        },
{
    match cdata {
        Some(v) => v,
        None => match plain {
            Some(v) => v,
            None => String::new(),
        },
    }
}

/// The percent-decoded text when it decodes, else the raw text.
pub fn decoded_or_raw(decoded: Option<String>, raw: String) -> (r: String)
    ensures
        r@ == match opt_text(decoded) {
            Some(d) => d,
            None => raw@,
        },
{
    match decoded {
        Some(d) => d,
        None => raw,
    }
}

// ------------------------------------------------------------------
// Sticker messages
// ------------------------------------------------------------------

/// The sticker XML with its character entities decoded, `&amp;` last.
pub open spec fn xml_text_decoded(raw: Seq<char>) -> Seq<char> {
    let a = replace_all(raw, "&lt;"@, "<"@);
    let b = replace_all(a, "&gt;"@, ">"@);
    let c = replace_all(b, "&quot;"@, "\""@);
    let d = replace_all(c, "&#39;"@, "'"@);
    replace_all(d, "&amp;"@, "&"@)
}

/// Decodes the character entities of sticker XML.
pub fn decode_sticker_xml_text(raw: &str) -> (r: String)
    ensures
        r@ == xml_text_decoded(raw@),
{
    proof {
        reveal_strlit("&lt;");
        reveal_strlit("&gt;");
        reveal_strlit("&quot;");
        reveal_strlit("&#39;");
        reveal_strlit("&amp;");
    }
    let a = replace_str(raw, "&lt;", "<");
    let b = replace_str(a.as_str(), "&gt;", ">");
    let c = replace_str(b.as_str(), "&quot;", "\"");
    let d = replace_str(c.as_str(), "&#39;", "'");
    replace_str(d.as_str(), "&amp;", "&")
}

/// A sticker URL as written in the XML, cleaned: entities decoded, escaped
/// quotes dropped, white space trimmed and trailing backslashes removed.
pub open spec fn normalized_sticker_url(raw: Seq<char>) -> Seq<char> {
    trim_end_char(trim(replace_all(xml_text_decoded(raw), "\\\""@, ""@)), '\\')
}

/// Cleans a sticker URL taken from the XML.
pub fn normalize_sticker_url(raw: &str) -> (r: String)
    ensures
        r@ == normalized_sticker_url(raw@),
{
    let decoded = decode_sticker_xml_text(raw);
    proof {
        reveal_strlit("\\\"");
    }
    let unquoted = replace_str(decoded.as_str(), "\\\"", "");
    let trimmed = trim_str(unquoted.as_str());
    let cs = chars_of(trimmed.as_str());
    let kept = trim_end_matches_char(cs.as_slice(), '\\');
    string_from(kept.as_slice())
}

/// Whether a cleaned, lower-cased URL points at a WeChat sticker asset.
pub open spec fn asset_url(v: Seq<char>) -> bool {
    &&& (starts_with(v, "http://"@) || starts_with(v, "https://"@))
    &&& (contains(v, ".qq.com"@) || contains(v, ".qpic.cn"@) || contains(v, "/webwxgetmsgimg"@)
        || contains(v, "/emoji"@) || contains(v, "/emotion"@))
}

/// Whether `raw`, once cleaned and lower-cased, is a sticker asset URL.
pub open spec fn sticker_asset(raw: Seq<char>) -> bool {
    asset_url(unicode_lowercase(normalized_sticker_url(raw)))
}

/// Whether a cleaned, lower-cased URL points at a WeChat sticker asset.
pub fn is_asset_url(v: &str) -> (r: bool)
    ensures
        r == asset_url(v@),
{
    (str_starts_with(v, "http://") || str_starts_with(v, "https://"))
        && (str_contains(v, ".qq.com") || str_contains(v, ".qpic.cn") || str_contains(v, "/webwxgetmsgimg")
        || str_contains(v, "/emoji") || str_contains(v, "/emotion"))
}

/// Whether `raw` is an HTTP(S) URL of a WeChat sticker asset.
pub fn is_sticker_asset_url(raw: &str) -> (r: bool)
    ensures
        r == sticker_asset(raw@),
{
    let normalized = normalize_sticker_url(raw);
    let value = to_lowercase(normalized.as_str());
    is_asset_url(value.as_str())
}

/// The pattern of the sticker's `md5` attribute.
pub open spec fn md5_pattern() -> Seq<char> {
    r#"(?i)md5\s*=\s*\\?"([a-f0-9]{32})\\?""#@
}

/// The sticker's MD5 digest, lower-cased, when the XML carries one.
pub open spec fn emoji_md5(content: Seq<char>) -> Option<Seq<char>> {
    match regex_first_group(md5_pattern(), xml_text_decoded(content)) {
        Some(g) => Some(unicode_lowercase(g)),
        None => None,
    }
}

/// The MD5 digest that WeChat gives a sticker.
pub fn extract_emoji_md5(content: &str) -> (r: Option<String>)
    ensures
        opt_text(r) == emoji_md5(content@),
{
    let decoded = decode_sticker_xml_text(content);
    match regex_capture(r#"(?i)md5\s*=\s*\\?"([a-f0-9]{32})\\?""#, decoded.as_str()) {
        Some(g) => Some(to_lowercase(g.as_str())),
        None => None,
    }
}


/// Whether a JSON value is a message that stands for a sticker from an
/// album or the sticker store, which the web client cannot download.
pub open spec fn product_sticker(message: JsonValue, content: Seq<char>) -> bool {
    ||| contains(content, "该类型暂不支持"@)
    ||| (field_i64(message, "MsgType"@) == Some(1i64) && field_i64(message, "ImgStatus"@) == Some(2i64)
        && field_i64(message, "HasProductId"@) == Some(1i64))
}

/// The `i64` member `key` of an object.
pub open spec fn field_i64(value: JsonValue, key: Seq<char>) -> Option<i64> {
    match get_spec(value, key) {
        Some(v) => i64_spec(v),
        None => None,
    }
}

/// The `i64` member `key` of an object.
pub fn get_i64(value: &JsonValue, key: &str) -> (r: Option<i64>)
    ensures
        r == field_i64(*value, key@),
{
    match value.get(key) {
        Some(v) => v.as_i64(),
        None => None,
    }
}

/// Whether a message is a placeholder for an album or store sticker.
pub fn is_product_sticker_message(message: &JsonValue, content: &str) -> (r: bool)
    ensures
        r == product_sticker(*message, content@),
{
    str_contains(content, "该类型暂不支持")
        || (get_i64(message, "MsgType") == Some(1i64) && get_i64(message, "ImgStatus") == Some(2i64)
        && get_i64(message, "HasProductId") == Some(1i64))
}

/// The origin of the file-transfer web client.
pub open spec fn filehelper_origin() -> Seq<char> {
    "https://szfilehelper.weixin.qq.com"@
}

/// The application id of the file-transfer web client.
pub open spec fn app_id() -> Seq<char> {
    "wx_webfilehelper"@
}

/// The message image endpoint.
pub open spec fn image_endpoint() -> Seq<char> {
    "https://szfilehelper.weixin.qq.com/cgi-bin/mmwebwx-bin/webwxgetmsgimg"@
}

/// The three request forms of the message image endpoint, in order of
/// preference: the current one with `type=big`, the current one without
/// it, and the old lower-case one.
pub open spec fn image_url_forms(message_id: Seq<char>, skey: Seq<char>) -> Seq<Option<Seq<char>>> {
    seq![
        url_with_pairs(image_endpoint(), seq![("MsgID"@, message_id), ("skey"@, skey), ("mmweb_appid"@, app_id()), ("type"@, "big"@)]),
        url_with_pairs(image_endpoint(), seq![("MsgID"@, message_id), ("skey"@, skey), ("mmweb_appid"@, app_id())]),
        url_with_pairs(image_endpoint(), seq![("msgid"@, message_id), ("skey"@, skey)]),
    ]
}

/// The present values of a sequence of options, in order.
pub open spec fn present(s: Seq<Option<Seq<char>>>) -> Seq<Seq<char>>
    decreases s.len(),
{
    if s.len() == 0 {
        Seq::empty()
    } else {
        let p = present(s.drop_last());
        match s.last() {
            Some(v) => p.push(v),
            None => p,
        }
    }
}

/// The views of a vector of strings.
pub open spec fn texts(v: Seq<String>) -> Seq<Seq<char>> {
    v.map_values(|s: String| s@)
}

/// Appends the URL to `urls` when it was built.
fn push_present(urls: &mut Vec<String>, url: Option<String>)
    ensures
        texts(final(urls)@) == match opt_text(url) {
            Some(v) => texts(old(urls)@).push(v),
            None => texts(old(urls)@),
        },
{
    if let Some(u) = url {
        urls.push(u);
        assert(texts(urls@) =~= texts(old(urls)@).push(u@));
    }
}

/// The URLs under which the message image endpoint serves a sticker message.
pub fn message_image_urls(message_id: &str, skey: &str) -> (r: Vec<String>)
    ensures
        texts(r@) == present(image_url_forms(message_id@, skey@)),
{
    let endpoint = "https://szfilehelper.weixin.qq.com/cgi-bin/mmwebwx-bin/webwxgetmsgimg";
    let big = vec![
        (owned("MsgID"), owned(message_id)),
        (owned("skey"), owned(skey)),
        (owned("mmweb_appid"), owned("wx_webfilehelper")),
        (owned("type"), owned("big")),
    ];
    assert(big@.map_values(|p: (String, String)| pair_text(p)) =~= seq![("MsgID"@, message_id@), ("skey"@, skey@), ("mmweb_appid"@, app_id()), ("type"@, "big"@)]);
    let plain = vec![
        (owned("MsgID"), owned(message_id)),
        (owned("skey"), owned(skey)),
        (owned("mmweb_appid"), owned("wx_webfilehelper")),
    ];
    assert(plain@.map_values(|p: (String, String)| pair_text(p)) =~= seq![("MsgID"@, message_id@), ("skey"@, skey@), ("mmweb_appid"@, app_id())]);
    let legacy = vec![(owned("msgid"), owned(message_id)), (owned("skey"), owned(skey))];
    assert(legacy@.map_values(|p: (String, String)| pair_text(p)) =~= seq![("msgid"@, message_id@), ("skey"@, skey@)]);
    let ghost forms = image_url_forms(message_id@, skey@);
    assert(endpoint@ == image_endpoint());
    let mut urls: Vec<String> = Vec::new();
    assert(texts(urls@) =~= Seq::<Seq<char>>::empty());
    let first = with_query_pairs(endpoint, big.as_slice());
    assert(opt_text(first) == forms[0]);
    push_present(&mut urls, first);
    assert(seq![forms[0]].drop_last() =~= Seq::<Option<Seq<char>>>::empty());
    assert(seq![forms[0]].last() == forms[0]);
    assert(present(Seq::<Option<Seq<char>>>::empty()) == Seq::<Seq<char>>::empty());
    assert(texts(urls@) == present(seq![forms[0]]));
    let second = with_query_pairs(endpoint, plain.as_slice());
    assert(opt_text(second) == forms[1]);
    push_present(&mut urls, second);
    assert(seq![forms[0], forms[1]].drop_last() =~= seq![forms[0]]);
    assert(seq![forms[0], forms[1]].last() == forms[1]);
    assert(texts(urls@) == present(seq![forms[0], forms[1]]));
    let third = with_query_pairs(endpoint, legacy.as_slice());
    assert(opt_text(third) == forms[2]);
    push_present(&mut urls, third);
    assert(forms.drop_last() =~= seq![forms[0], forms[1]]);
    assert(forms.last() == forms[2]);
    urls
}

/// The stored source of a sticker: for the message image endpoint, the URL
/// without its query, which carries the session key.
pub open spec fn sanitized_source(raw: Seq<char>) -> Seq<char> {
    if !contains(raw, "/webwxgetmsgimg"@) {
        raw
    } else {
        match url_without_query(raw) {
            Some(u) => u,
            None => raw,
        }
    }
}

/// The source URL kept with a sticker, without the session key.
pub fn sanitize_sticker_source_url(raw: &str) -> (r: String)
    ensures
        r@ == sanitized_source(raw@),
{
    if !str_contains(raw, "/webwxgetmsgimg") {
        return owned(raw);
    }
    match strip_query(raw) {
        Some(u) => u,
        None => owned(raw),
    }
}

/// The name of the message image endpoint form that a query selects: the
/// sticker original (`MsgID` and `type=big`), the current form (`MsgID`),
/// or the old one.
pub open spec fn query_label(pairs: Seq<(Seq<char>, Seq<char>)>) -> Seq<char> {
    let has_id = exists|i: int| 0 <= i < pairs.len() && (#[trigger] pairs[i]).0 == "MsgID"@;
    let big = exists|i: int| 0 <= i < pairs.len() && (#[trigger] pairs[i]).0 == "type"@ && pairs[i].1 == "big"@;
    if has_id && big {
        "微信表情原图接口"@
    } else if has_id {
        "微信消息图片接口"@
    } else {
        "微信旧版图片接口"@
    }
}

/// The name shown for the place a sticker was downloaded from.
pub open spec fn download_source_label(url: Seq<char>) -> Seq<char> {
    if !contains(url, "/webwxgetmsgimg"@) {
        "微信 CDN"@
    } else if !url_parses(url) {
        "微信消息图片接口"@
    } else {
        query_label(url_query_pairs(url))
    }
}

/// Names the form of the message image endpoint that the query pairs select.
pub fn label_for_query(pairs: &Vec<(String, String)>) -> (r: &'static str)
    ensures
        r@ == query_label(pairs@.map_values(|p: (String, String)| pair_text(p))),
{
    let ghost view = pairs@.map_values(|p: (String, String)| pair_text(p));
    let mut has_id = false;
    let mut big = false;
    let mut i: usize = 0;
    while i < pairs.len()
        invariant
            i <= pairs.len(),
            pairs@.map_values(|p: (String, String)| pair_text(p)) == view,
            has_id == exists|j: int| 0 <= j < i && (#[trigger] view[j]).0 == "MsgID"@,
            big == exists|j: int| 0 <= j < i && (#[trigger] view[j]).0 == "type"@ && view[j].1 == "big"@,
        decreases pairs.len() - i,
    {
        assert(view[i as int] == pair_text(pairs@[i as int]));
        let name = pairs[i].0.as_str();
        if str_eq(name, "MsgID") {
            has_id = true;
            proof {
                reveal_strlit("MsgID");
                reveal_strlit("type");
            }
            assert("MsgID"@.len() == 5 && "type"@.len() == 4);
            assert(view[i as int].0 != "type"@);
        } else if str_eq(name, "type") && str_eq(pairs[i].1.as_str(), "big") {
            big = true;
        }
        i = i + 1;
    }
    if has_id && big {
        "微信表情原图接口"
    } else if has_id {
        "微信消息图片接口"
    } else {
        "微信旧版图片接口"
    }
}

/// Names the place a sticker URL downloads from, for diagnostics.
pub fn sticker_download_source_label(url: &str) -> (r: &'static str)
    ensures
        r@ == download_source_label(url@),
{
    if !str_contains(url, "/webwxgetmsgimg") {
        return "微信 CDN";
    }
    match parse_url(url) {
        Ok(parts) => label_for_query(&parts.query),
        Err(_) => "微信消息图片接口",
    }
}

// ------------------------------------------------------------------
// Candidate download URLs
// ------------------------------------------------------------------

/// `p` with `x` appended unless it already holds it.
pub open spec fn add_distinct(p: Seq<Seq<char>>, x: Seq<char>) -> Seq<Seq<char>> {
    if p.contains(x) { p } else { p.push(x) }
}

/// The values of `s` without repetitions, each where it first occurs.
pub open spec fn distinct(s: Seq<Seq<char>>) -> Seq<Seq<char>>
    decreases s.len(),
{
    if s.len() == 0 { s } else { add_distinct(distinct(s.drop_last()), s.last()) }
}

/// The sticker asset URLs among the captured attribute values, cleaned.
pub open spec fn asset_groups(gs: Seq<Option<Seq<char>>>) -> Seq<Seq<char>>
    decreases gs.len(),
{
    if gs.len() == 0 {
        Seq::empty()
    } else {
        let p = asset_groups(gs.drop_last());
        match gs.last() {
            Some(v) => if sticker_asset(normalized_sticker_url(v)) { p.push(normalized_sticker_url(v)) } else { p },
            None => p,
        }
    }
}

/// The sticker asset URLs among the matched URLs, cleaned.
pub open spec fn asset_matches(ms: Seq<Seq<char>>) -> Seq<Seq<char>>
    decreases ms.len(),
{
    if ms.len() == 0 {
        Seq::empty()
    } else {
        let p = asset_matches(ms.drop_last());
        let v = normalized_sticker_url(ms.last());
        if sticker_asset(v) { p.push(v) } else { p }
    }
}

/// The attributes of the sticker element that carry its URLs.
pub open spec fn attribute_pattern() -> Seq<char> {
    r#"(?i)(?:cdnurl|encrypturl|externurl|thumburl)\s*=\s*\\?"([^"\\]+)\\?""#@
}

/// Any HTTP(S) URL in the text.
pub open spec fn any_url_pattern() -> Seq<char> {
    r#"https?://[^\s"'<>]+"#@
}

/// The sticker asset URLs of a sticker message: those of its URL attributes,
/// then any other in its text, each once.
pub open spec fn emoji_urls(content: Seq<char>) -> Seq<Seq<char>> {
    let d = xml_text_decoded(content);
    distinct(asset_groups(regex_every_group(attribute_pattern(), d)) + asset_matches(regex_every_match(any_url_pattern(), d)))
}

/// Whether one of `v` has the text `s`.
fn texts_contain(v: &Vec<String>, s: &str) -> (r: bool)
    ensures
        r == texts(v@).contains(s@),
{
    let mut i: usize = 0;
    while i < v.len()
        invariant
            i <= v.len(),
            forall|j: int| 0 <= j < i ==> texts(v@)[j] != s@,
        decreases v.len() - i,
    {
        if str_eq(v[i].as_str(), s) {
            assert(texts(v@)[i as int] == s@);
            return true;
        }
        i = i + 1;
    }
    false
}

/// Appends `x` unless `out` already holds its text.
fn push_distinct(out: &mut Vec<String>, x: String)
    ensures
        texts(final(out)@) == add_distinct(texts(old(out)@), x@),
{
    if !texts_contain(out, x.as_str()) {
        out.push(x);
        assert(texts(out@) =~= texts(old(out)@).push(x@));
    }
}

/// The sticker asset URLs among the captured URL attributes and the
/// matched URLs of a sticker message, cleaned, each once.
pub fn emoji_urls_from(groups: &Vec<Option<String>>, matches: &Vec<String>) -> (r: Vec<String>)
    ensures
        texts(r@) == distinct(
            asset_groups(groups@.map_values(|o: Option<String>| opt_text(o))) + asset_matches(texts(matches@)),
        ),
{
    let ghost gs = groups@.map_values(|o: Option<String>| opt_text(o));
    let mut out: Vec<String> = Vec::new();
    assert(texts(out@) =~= distinct(asset_groups(gs.take(0))));
    let mut i: usize = 0;
    while i < groups.len()
        invariant
            i <= groups.len(),
            groups@.map_values(|o: Option<String>| opt_text(o)) == gs,
            texts(out@) == distinct(asset_groups(gs.take(i as int))),
        decreases groups.len() - i,
    {
        assert(gs.take(i + 1).drop_last() == gs.take(i as int));
        assert(gs.take(i + 1).last() == opt_text(groups@[i as int]));
        if let Some(raw) = &groups[i] {
            let value = normalize_sticker_url(raw.as_str());
            if is_sticker_asset_url(value.as_str()) {
                proof {
                    assert(asset_groups(gs.take(i + 1)) == asset_groups(gs.take(i as int)).push(value@));
                    assert(asset_groups(gs.take(i + 1)).drop_last() == asset_groups(gs.take(i as int)));
                }
                push_distinct(&mut out, value);
            }
        }
        i = i + 1;
    }
    assert(gs.take(groups.len() as int) == gs);
    let ghost a = asset_groups(gs);
    let ghost ms = texts(matches@);
    assert(a + asset_matches(ms.take(0)) =~= a);
    let mut j: usize = 0;
    while j < matches.len()
        invariant
            j <= matches.len(),
            texts(matches@) == ms,
            texts(out@) == distinct(a + asset_matches(ms.take(j as int))),
        decreases matches.len() - j,
    {
        assert(ms.take(j + 1).drop_last() == ms.take(j as int));
        assert(ms.take(j + 1).last() == matches@[j as int]@);
        let value = normalize_sticker_url(matches[j].as_str());
        if is_sticker_asset_url(value.as_str()) {
            proof {
                let before = a + asset_matches(ms.take(j as int));
                assert(a + asset_matches(ms.take(j + 1)) == before.push(value@));
                assert(before.push(value@).drop_last() == before);
            }
            push_distinct(&mut out, value);
        }
        j = j + 1;
    }
    assert(ms.take(matches.len() as int) == ms);
    out
}

/// The sticker asset URLs that a sticker message names, each once.
pub fn extract_emoji_urls(content: &str) -> (r: Vec<String>)
    ensures
        texts(r@) == emoji_urls(content@),
{
    let decoded = decode_sticker_xml_text(content);
    let groups = regex_capture_all(
        r#"(?i)(?:cdnurl|encrypturl|externurl|thumburl)\s*=\s*\\?"([^"\\]+)\\?""#,
        decoded.as_str(),
    );
    let matches = regex_find_all(r#"https?://[^\s"'<>]+"#, decoded.as_str());
    emoji_urls_from(&groups, &matches)
}

/// The preference of a download URL: the authenticated message image
/// endpoint first, thumbnails last.
pub open spec fn url_rank(u: Seq<char>) -> nat {
    if contains(u, "/webwxgetmsgimg"@) {
        0
    } else if contains(u, "/20401/"@) {
        1
    } else if contains(u, "cdnurl"@) {
        2
    } else if contains(u, "/20402/"@) {
        3
    } else if contains(u, "extern"@) {
        4
    } else if contains(u, "encrypt"@) {
        5
    } else if contains(u, "thumb"@) {
        6
    } else {
        3
    }
}

/// The preference of a download URL.
fn rank_of(url: &str) -> (r: u8)
    ensures
        r == url_rank(url@),
{
    if str_contains(url, "/webwxgetmsgimg") {
        0
    } else if str_contains(url, "/20401/") {
        1
    } else if str_contains(url, "cdnurl") {
        2
    } else if str_contains(url, "/20402/") {
        3
    } else if str_contains(url, "extern") {
        4
    } else if str_contains(url, "encrypt") {
        5
    } else if str_contains(url, "thumb") {
        6
    } else {
        3
    }
}

/// The URLs of `s` with preference `k`, in their order in `s`.
pub open spec fn with_rank(s: Seq<Seq<char>>, k: nat) -> Seq<Seq<char>>
    decreases s.len(),
{
    if s.len() == 0 {
        s
    } else {
        let p = with_rank(s.drop_last(), k);
        if url_rank(s.last()) == k { p.push(s.last()) } else { p }
    }
}

/// The URLs of `s` with a preference below `k`, by preference, and in their
/// order in `s` within one preference.
pub open spec fn ranked_below(s: Seq<Seq<char>>, k: nat) -> Seq<Seq<char>>
    decreases k,
{
    if k == 0 { Seq::empty() } else { ranked_below(s, (k - 1) as nat) + with_rank(s, (k - 1) as nat) }
}

/// `s` sorted by preference, stably.
pub open spec fn ranked(s: Seq<Seq<char>>) -> Seq<Seq<char>> {
    ranked_below(s, 7)
}

/// `s` with each run of equal neighbours reduced to its first element.
pub open spec fn dedup_adjacent(s: Seq<Seq<char>>) -> Seq<Seq<char>>
    decreases s.len(),
{
    if s.len() == 0 {
        s
    } else {
        let p = dedup_adjacent(s.drop_last());
        if s.len() >= 2 && s[s.len() - 2] == s.last() { p } else { p.push(s.last()) }
    }
}

/// Orders download URLs by preference, keeping the order within one
/// preference, and drops neighbouring repetitions.
pub fn rank_urls(urls: Vec<String>) -> (r: Vec<String>)
    ensures
        texts(r@) == dedup_adjacent(ranked(texts(urls@))),
{
    let ghost s = texts(urls@);
    let mut sorted: Vec<String> = Vec::new();
    let mut k: u8 = 0;
    assert(texts(sorted@) =~= ranked_below(s, 0));
    while k < 7
        invariant
            k <= 7,
            s == texts(urls@),
            texts(sorted@) == ranked_below(s, k as nat),
        decreases 7 - k,
    {
        let ghost base = texts(sorted@);
        assert(base + with_rank(s.take(0), k as nat) =~= base);
        let mut i: usize = 0;
        while i < urls.len()
            invariant
                i <= urls.len(),
                k < 7,
                s == texts(urls@),
                texts(sorted@) == base + with_rank(s.take(i as int), k as nat),
            decreases urls.len() - i,
        {
            assert(s.take(i + 1).drop_last() == s.take(i as int));
            assert(s.take(i + 1).last() == urls@[i as int]@);
            if rank_of(urls[i].as_str()) == k {
                let ghost before = texts(sorted@);
                sorted.push(urls[i].clone());
                assert(texts(sorted@) =~= before.push(urls@[i as int]@));
                assert(base + with_rank(s.take(i + 1), k as nat) =~= (base + with_rank(s.take(i as int), k as nat)).push(urls@[i as int]@));
            }
            i = i + 1;
        }
        assert(s.take(urls.len() as int) == s);
        k = k + 1;
    }
    let ghost t = texts(sorted@);
    let mut out: Vec<String> = Vec::new();
    assert(texts(out@) =~= dedup_adjacent(t.take(0)));
    let mut i: usize = 0;
    while i < sorted.len()
        invariant
            i <= sorted.len(),
            t == texts(sorted@),
            texts(out@) == dedup_adjacent(t.take(i as int)),
        decreases sorted.len() - i,
    {
        let ghost u = t.take(i + 1);
        assert(u.drop_last() == t.take(i as int));
        assert(u.last() == t[i as int]);
        if i >= 1 {
            assert(u[u.len() - 2] == t[i - 1]);
        }
        if i == 0 || !str_eq(sorted[i - 1].as_str(), sorted[i].as_str()) {
            let ghost before = texts(out@);
            out.push(sorted[i].clone());
            assert(texts(out@) =~= before.push(t[i as int]));
        }
        i = i + 1;
    }
    assert(t.take(sorted.len() as int) == t);
    out
}

/// The URLs to try for a sticker message, in order: those named by the
/// message, and the message image endpoint when the message has an id.
pub open spec fn download_urls(content: Seq<char>, message_id: Option<Seq<char>>, skey: Seq<char>) -> Seq<Seq<char>> {
    let named = emoji_urls(content);
    let all = match message_id {
        Some(m) => named + present(image_url_forms(m, skey)),
        None => named,
    };
    dedup_adjacent(ranked(all))
}

/// The view of an optional text.
pub open spec fn opt_str(o: Option<&str>) -> Option<Seq<char>> {
    match o {
        Some(s) => Some(s@),
        None => None,
    }
}

/// The URLs to try, in order, for a sticker message.
pub fn sticker_download_urls(content: &str, message_id: Option<&str>, skey: &str) -> (r: Vec<String>)
    ensures
        texts(r@) == download_urls(content@, opt_str(message_id), skey@),
{
    let mut urls = extract_emoji_urls(content);
    if let Some(id) = message_id {
        let extra = message_image_urls(id, skey);
        let ghost before = texts(urls@);
        let mut i: usize = 0;
        assert(before + texts(extra@).take(0) =~= before);
        while i < extra.len()
            invariant
                i <= extra.len(),
                texts(urls@) == before + texts(extra@).take(i as int),
            decreases extra.len() - i,
        {
            let ghost prior = texts(urls@);
            urls.push(extra[i].clone());
            assert(texts(urls@) =~= prior.push(extra@[i as int]@));
            assert(texts(extra@).take(i + 1) =~= texts(extra@).take(i as int).push(extra@[i as int]@));
            assert(texts(urls@) =~= before + texts(extra@).take(i + 1));
            i = i + 1;
        }
        assert(texts(extra@).take(extra.len() as int) == texts(extra@));
    }
    rank_urls(urls)
}


// ------------------------------------------------------------------
// Laws of the candidate URLs
// ------------------------------------------------------------------

/// Every element of `s` but the last is an element of `s.drop_last()`.
proof fn lemma_contains_split(s: Seq<Seq<char>>)
    requires
        s.len() > 0,
    ensures
        forall|x: Seq<char>| #[trigger] s.contains(x) <==> (s.drop_last().contains(x) || x == s.last()),
{
    assert forall|x: Seq<char>| #[trigger] s.contains(x) <==> (s.drop_last().contains(x) || x == s.last()) by {
        if s.contains(x) {
            let i = choose|i: int| 0 <= i < s.len() && s[i] == x;
            if i < s.len() - 1 {
                assert(s.drop_last()[i] == x);
            }
        }
        if s.drop_last().contains(x) {
            let i = choose|i: int| 0 <= i < s.drop_last().len() && s.drop_last()[i] == x;
            assert(s[i] == x);
        }
        if x == s.last() {
            assert(s[s.len() - 1] == x);
        }
    }
}

/// The elements of a concatenation are those of its parts.
proof fn lemma_contains_concat(a: Seq<Seq<char>>, b: Seq<Seq<char>>)
    ensures
        forall|x: Seq<char>| #[trigger] (a + b).contains(x) <==> (a.contains(x) || b.contains(x)),
{
    assert forall|x: Seq<char>| #[trigger] (a + b).contains(x) <==> (a.contains(x) || b.contains(x)) by {
        let c = a + b;
        if c.contains(x) {
            let i = choose|i: int| 0 <= i < c.len() && c[i] == x;
            if i < a.len() {
                assert(a[i] == x);
            } else {
                assert(b[i - a.len()] == x);
            }
        }
        if a.contains(x) {
            let i = choose|i: int| 0 <= i < a.len() && a[i] == x;
            assert(c[i] == x);
        }
        if b.contains(x) {
            let i = choose|i: int| 0 <= i < b.len() && b[i] == x;
            assert(c[i + a.len()] == x);
        }
    }
}

/// The URLs of one preference all have that preference, and are exactly
/// the URLs of `s` that have it.
proof fn lemma_with_rank(s: Seq<Seq<char>>, k: nat)
    ensures
        forall|i: int| 0 <= i < with_rank(s, k).len() ==> url_rank(#[trigger] with_rank(s, k)[i]) == k,
        forall|x: Seq<char>| #[trigger] with_rank(s, k).contains(x) <==> (s.contains(x) && url_rank(x) == k),
    decreases s.len(),
{
    if s.len() > 0 {
        lemma_with_rank(s.drop_last(), k);
        lemma_contains_split(s);
        let p = with_rank(s.drop_last(), k);
        if url_rank(s.last()) == k {
            lemma_contains_split(p.push(s.last()));
            assert(p.push(s.last()).drop_last() == p);
        }
    }
}

/// Whether the preferences along `s` never decrease.
pub open spec fn rank_sorted(s: Seq<Seq<char>>) -> bool {
    forall|i: int, j: int| 0 <= i < j < s.len() ==> url_rank(#[trigger] s[i]) <= url_rank(#[trigger] s[j])
}

/// No preference exceeds 6.
proof fn lemma_rank_bound(u: Seq<char>)
    ensures
        url_rank(u) <= 6,
{
}

/// The URLs below a preference come sorted, and are the URLs of `s` below it.
proof fn lemma_ranked_below(s: Seq<Seq<char>>, k: nat)
    ensures
        rank_sorted(ranked_below(s, k)),
        forall|i: int| 0 <= i < ranked_below(s, k).len() ==> url_rank(#[trigger] ranked_below(s, k)[i]) < k,
        forall|x: Seq<char>| #[trigger] ranked_below(s, k).contains(x) <==> (s.contains(x) && url_rank(x) < k),
    decreases k,
{
    if k > 0 {
        let j = (k - 1) as nat;
        lemma_ranked_below(s, j);
        lemma_with_rank(s, j);
        let a = ranked_below(s, j);
        let b = with_rank(s, j);
        let c = a + b;
        assert(ranked_below(s, k) == c);
        assert forall|i: int| 0 <= i < c.len() implies url_rank(#[trigger] c[i]) < k by {
            if i < a.len() {
                assert(c[i] == a[i]);
            } else {
                assert(c[i] == b[i - a.len()]);
            }
        }
        assert forall|i: int, m: int| 0 <= i < m < c.len() implies url_rank(#[trigger] c[i]) <= url_rank(#[trigger] c[m]) by {
            if m < a.len() {
                assert(c[i] == a[i] && c[m] == a[m]);
            } else if i < a.len() {
                assert(c[i] == a[i] && c[m] == b[m - a.len()]);
            } else {
                assert(c[i] == b[i - a.len()] && c[m] == b[m - a.len()]);
            }
        }
        lemma_contains_concat(a, b);
    }
}

/// Dropping neighbouring repetitions keeps the elements, the order by
/// preference and the last element, and leaves no equal neighbours.
proof fn lemma_dedup_adjacent(t: Seq<Seq<char>>)
    requires
        rank_sorted(t),
    ensures
        rank_sorted(dedup_adjacent(t)),
        forall|x: Seq<char>| #[trigger] dedup_adjacent(t).contains(x) <==> t.contains(x),
        forall|i: int| 0 <= i < dedup_adjacent(t).len() - 1 ==> #[trigger] dedup_adjacent(t)[i] != dedup_adjacent(t)[i + 1],
        t.len() > 0 ==> dedup_adjacent(t).len() > 0 && dedup_adjacent(t).last() == t.last(),
    decreases t.len(),
{
    if t.len() > 0 {
        let q = t.drop_last();
        assert(rank_sorted(q)) by {
            assert forall|i: int, m: int| 0 <= i < m < q.len() implies url_rank(#[trigger] q[i]) <= url_rank(#[trigger] q[m]) by {
                assert(q[i] == t[i] && q[m] == t[m]);
            }
        }
        lemma_dedup_adjacent(q);
        lemma_contains_split(t);
        let p = dedup_adjacent(q);
        if t.len() >= 2 && t[t.len() - 2] == t.last() {
            assert(q.last() == t[t.len() - 2]);
            assert(q.contains(t.last())) by {
                assert(q[q.len() - 1] == t.last());
            }
        } else {
            let d = p.push(t.last());
            lemma_contains_split(d);
            assert(d.drop_last() == p);
            assert forall|i: int, m: int| 0 <= i < m < d.len() implies url_rank(#[trigger] d[i]) <= url_rank(#[trigger] d[m]) by {
                if m < p.len() {
                    assert(d[i] == p[i] && d[m] == p[m]);
                } else {
                    assert(d[i] == p[i]);
                    assert(p.contains(p[i]));
                    assert(q.contains(p[i]));
                    let w = choose|w: int| 0 <= w < q.len() && q[w] == p[i];
                    assert(t[w] == p[i]);
                    assert(d[m] == t[t.len() - 1]);
                }
            }
            assert forall|i: int| 0 <= i < d.len() - 1 implies #[trigger] d[i] != d[i + 1] by {
                if i + 1 < p.len() {
                    assert(d[i] == p[i] && d[i + 1] == p[i + 1]);
                } else {
                    assert(d[i] == p.last());
                    assert(p.last() == q.last());
                    assert(q.last() == t[t.len() - 2]);
                }
            }
        }
    }
}

/// Law: the URLs to try come out ordered by preference, with no two equal
/// neighbours, and they are exactly the candidate URLs.
pub proof fn law_ranked_urls(s: Seq<Seq<char>>)
    ensures
        rank_sorted(dedup_adjacent(ranked(s))),
        forall|x: Seq<char>| #[trigger] dedup_adjacent(ranked(s)).contains(x) <==> s.contains(x),
        forall|i: int| 0 <= i < dedup_adjacent(ranked(s)).len() - 1 ==> #[trigger] dedup_adjacent(ranked(s))[i]
            != dedup_adjacent(ranked(s))[i + 1],
{
    lemma_ranked_below(s, 7);
    lemma_dedup_adjacent(ranked(s));
    assert forall|x: Seq<char>| #[trigger] ranked(s).contains(x) <==> s.contains(x) by {
        lemma_rank_bound(x);
    }
}

/// The distinct values of `s` are its values, each once.
proof fn lemma_distinct(s: Seq<Seq<char>>)
    ensures
        forall|x: Seq<char>| #[trigger] distinct(s).contains(x) <==> s.contains(x),
        forall|i: int, j: int| 0 <= i < j < distinct(s).len() ==> #[trigger] distinct(s)[i] != #[trigger] distinct(s)[j],
    decreases s.len(),
{
    if s.len() > 0 {
        lemma_distinct(s.drop_last());
        lemma_contains_split(s);
        let p = distinct(s.drop_last());
        if !p.contains(s.last()) {
            let d = p.push(s.last());
            lemma_contains_split(d);
            assert(d.drop_last() == p);
            assert forall|i: int, j: int| 0 <= i < j < d.len() implies #[trigger] d[i] != #[trigger] d[j] by {
                if j < p.len() {
                    assert(d[i] == p[i] && d[j] == p[j]);
                } else {
                    assert(d[i] == p[i]);
                    assert(p.contains(p[i]));
                }
            }
        }
    }
}

/// Every cleaned attribute value kept is a sticker asset URL.
proof fn lemma_asset_groups(gs: Seq<Option<Seq<char>>>)
    ensures
        forall|x: Seq<char>| #[trigger] asset_groups(gs).contains(x) ==> sticker_asset(x),
    decreases gs.len(),
{
    if gs.len() > 0 {
        lemma_asset_groups(gs.drop_last());
        let p = asset_groups(gs.drop_last());
        if asset_groups(gs) != p {
            lemma_contains_split(asset_groups(gs));
            assert(asset_groups(gs).drop_last() == p);
        }
    }
}

/// Every cleaned matched URL kept is a sticker asset URL.
proof fn lemma_asset_matches(ms: Seq<Seq<char>>)
    ensures
        forall|x: Seq<char>| #[trigger] asset_matches(ms).contains(x) ==> sticker_asset(x),
    decreases ms.len(),
{
    if ms.len() > 0 {
        lemma_asset_matches(ms.drop_last());
        let p = asset_matches(ms.drop_last());
        if asset_matches(ms) != p {
            lemma_contains_split(asset_matches(ms));
            assert(asset_matches(ms).drop_last() == p);
        }
    }
}

/// Law: the URLs found in a sticker message are sticker asset URLs, each
/// named once.
pub proof fn law_emoji_urls(content: Seq<char>)
    ensures
        forall|x: Seq<char>| #[trigger] emoji_urls(content).contains(x) ==> sticker_asset(x),
        forall|i: int, j: int| 0 <= i < j < emoji_urls(content).len() ==> #[trigger] emoji_urls(content)[i]
            != #[trigger] emoji_urls(content)[j],
{
    let d = xml_text_decoded(content);
    let a = asset_groups(regex_every_group(attribute_pattern(), d));
    let b = asset_matches(regex_every_match(any_url_pattern(), d));
    lemma_asset_groups(regex_every_group(attribute_pattern(), d));
    lemma_asset_matches(regex_every_match(any_url_pattern(), d));
    lemma_contains_concat(a, b);
    lemma_distinct(a + b);
}


// ------------------------------------------------------------------
// Errors
// ------------------------------------------------------------------

/// Why a step of the WeChat login or synchronisation failed. Variants
/// that carry a `String` carry the HTTP status or the value reported.
#[derive(Debug, Clone)]
pub enum WechatError {
    QrRequestFailed(String),
    MissingUuid,
    UnreadableUuid,
    InvalidUuid,
    QrDownloadFailed(String),
    QrNotImage,
    MissingRedirect,
    InvalidUrl(String),
    SessionPageFailed(String),
    LoginRejected(String),
    IncompleteCredentials,
    InitFailed(String),
    InitRejected,
    MissingSyncKey,
    MissingSyncStatus,
    UnsupportedSessionVersion(u8),
    LogoutFailed(String),
}

/// The message shown for an error.
pub open spec fn wechat_error_text(e: WechatError) -> Seq<char> {
    match e {
        WechatError::QrRequestFailed(s) => "获取微信二维码失败（"@ + s@ + "）"@,
        WechatError::MissingUuid => "微信未返回有效登录 UUID"@,
        WechatError::UnreadableUuid => "无法解析微信登录 UUID"@,
        WechatError::InvalidUuid => "微信登录 UUID 格式无效"@,
        WechatError::QrDownloadFailed(s) => "下载微信二维码失败（"@ + s@ + "）"@,
        WechatError::QrNotImage => "微信二维码响应不是有效图片，请稍后刷新"@,
        WechatError::MissingRedirect => "微信登录成功，但未返回会话地址"@,
        WechatError::InvalidUrl(s) => s@,
        WechatError::SessionPageFailed(s) => "建立微信会话失败（"@ + s@ + "）"@,
        WechatError::LoginRejected(s) => "微信登录返回错误（"@ + s@ + "）"@,
        WechatError::IncompleteCredentials => "微信登录凭证不完整，请重新扫码"@,
        WechatError::InitFailed(s) => "初始化微信会话失败（"@ + s@ + "）"@,
        WechatError::InitRejected => "微信初始化返回错误"@,
        WechatError::MissingSyncKey => "微信未返回消息同步凭证"@,
        WechatError::MissingSyncStatus => "微信同步响应缺少状态码"@,
        WechatError::UnsupportedSessionVersion(v) => "不支持的微信登录状态版本："@ + decimal(v as nat),
        WechatError::LogoutFailed(s) => "微信退出接口返回 "@ + s@,
    }
}

/// `before`, `middle` and `after` joined.
fn surround(before: &str, middle: &str, after: &str) -> (r: String)
    ensures
        r@ == before@ + middle@ + after@,
{
    let head = concat(before, middle);
    concat(head.as_str(), after)
}

impl WechatError {
    /// The message shown for the error.
    pub fn message(&self) -> (r: String)
        ensures
            r@ == wechat_error_text(*self),
    {
        match self {
            WechatError::QrRequestFailed(s) => surround("获取微信二维码失败（", s.as_str(), "）"),
            WechatError::MissingUuid => owned("微信未返回有效登录 UUID"),
            WechatError::UnreadableUuid => owned("无法解析微信登录 UUID"),
            WechatError::InvalidUuid => owned("微信登录 UUID 格式无效"),
            WechatError::QrDownloadFailed(s) => surround("下载微信二维码失败（", s.as_str(), "）"),
            WechatError::QrNotImage => owned("微信二维码响应不是有效图片，请稍后刷新"),
            WechatError::MissingRedirect => owned("微信登录成功，但未返回会话地址"),
            WechatError::InvalidUrl(s) => s.clone(),
            WechatError::SessionPageFailed(s) => surround("建立微信会话失败（", s.as_str(), "）"),
            WechatError::LoginRejected(s) => surround("微信登录返回错误（", s.as_str(), "）"),
            WechatError::IncompleteCredentials => owned("微信登录凭证不完整，请重新扫码"),
            WechatError::InitFailed(s) => surround("初始化微信会话失败（", s.as_str(), "）"),
            WechatError::InitRejected => owned("微信初始化返回错误"),
            WechatError::MissingSyncKey => owned("微信未返回消息同步凭证"),
            WechatError::MissingSyncStatus => owned("微信同步响应缺少状态码"),
            WechatError::UnsupportedSessionVersion(v) => {
                let digits = u64_to_decimal(*v as u64);
                concat("不支持的微信登录状态版本：", digits.as_str())
            },
            WechatError::LogoutFailed(s) => concat("微信退出接口返回 ", s.as_str()),
        }
    }
}

/// The requests whose HTTP status is checked.
#[derive(Debug, Clone, Copy, PartialEq, Eq, Structural)]
pub enum RequestStage {
    QrCode,
    QrImage,
    SessionPage,
    SessionInit,
    Logout,
}

/// The error for a request that did not succeed, with the status as shown.
pub open spec fn stage_error(stage: RequestStage, status: String) -> WechatError {
    match stage {
        RequestStage::QrCode => WechatError::QrRequestFailed(status),
        RequestStage::QrImage => WechatError::QrDownloadFailed(status),
        RequestStage::SessionPage => WechatError::SessionPageFailed(status),
        RequestStage::SessionInit => WechatError::InitFailed(status),
        RequestStage::Logout => WechatError::LogoutFailed(status),
    }
}

/// Accepts a successful HTTP status, refuses any other with the error of
/// the request it answered.
pub fn require_success(stage: RequestStage, success: bool, status: String) -> (r: Result<(), WechatError>)
    ensures
        success ==> r is Ok,
        !success ==> r == Err::<(), WechatError>(stage_error(stage, status)),
{
    if success {
        return Ok(());
    }
    match stage {
        RequestStage::QrCode => Err(WechatError::QrRequestFailed(status)),
        RequestStage::QrImage => Err(WechatError::QrDownloadFailed(status)),
        RequestStage::SessionPage => Err(WechatError::SessionPageFailed(status)),
        RequestStage::SessionInit => Err(WechatError::InitFailed(status)),
        RequestStage::Logout => Err(WechatError::LogoutFailed(status)),
    }
}

/// The version of the persisted session file this library writes and reads.
pub const SESSION_FILE_VERSION: u8 = 1;

/// Refuses a persisted session file of another version.
pub fn check_session_version(version: u8) -> (r: Result<(), WechatError>)
    ensures
        version == SESSION_FILE_VERSION ==> r is Ok,
        version != SESSION_FILE_VERSION ==> r == Err::<(), WechatError>(WechatError::UnsupportedSessionVersion(version)),
{
    if version == SESSION_FILE_VERSION {
        Ok(())
    } else {
        Err(WechatError::UnsupportedSessionVersion(version))
    }
}

// ------------------------------------------------------------------
// The session
// ------------------------------------------------------------------

/// A signed-in session of the file-transfer web client.
#[derive(Debug)]
pub struct WechatSession {
    pub uin: String,
    pub sid: String,
    pub skey: String,
    pub pass_ticket: String,
    pub device_id: String,
    pub sync_key: Vec<SyncKeyItem>,
}

/// Two sessions hold the same credentials and synchronisation key.
pub open spec fn same_session(a: WechatSession, b: WechatSession) -> bool {
    &&& a.uin == b.uin
    &&& a.sid == b.sid
    &&& a.skey == b.skey
    &&& a.pass_ticket == b.pass_ticket
    &&& a.device_id == b.device_id
    &&& a.sync_key@ == b.sync_key@
}

impl Clone for WechatSession {
    fn clone(&self) -> (r: Self)
        ensures
            same_session(r, *self),
    {
        let sync_key = self.sync_key.clone();
        assert(sync_key@ =~= self.sync_key@);
        WechatSession {
            uin: self.uin.clone(),
            sid: self.sid.clone(),
            skey: self.skey.clone(),
            pass_ticket: self.pass_ticket.clone(),
            device_id: self.device_id.clone(),
            sync_key,
        }
    }
}

/// The `BaseRequest` object that every API call carries.
#[derive(Debug)]
pub struct BaseRequest {
    pub uin: u64,
    pub sid: String,
    pub skey: String,
    pub device_id: String,
}

/// The numeric user id: the `uin` when it parses as a `u64`, else 0.
pub open spec fn uin_number(uin: Seq<char>) -> u64 {
    match parsed_u64(uin) {
        Some(n) => n,
        None => 0,
    }
}

/// The `BaseRequest` of a session.
pub fn base_request(session: &WechatSession) -> (r: BaseRequest)
    ensures
        r.uin == uin_number(session.uin@),
        r.sid@ == session.sid@,
        r.skey@ == session.skey@,
        r.device_id@ == session.device_id@,
{
    let uin = match parse_u64(session.uin.as_str()) {
        Some(n) => n,
        None => 0,
    };
    BaseRequest {
        uin,
        sid: session.sid.clone(),
        skey: session.skey.clone(),
        device_id: session.device_id.clone(),
    }
}

// ------------------------------------------------------------------
// QR login
// ------------------------------------------------------------------

/// The page the login redirects to.
pub open spec fn new_login_page() -> Seq<char> {
    "https://szfilehelper.weixin.qq.com/cgi-bin/mmwebwx-bin/webwxnewloginpage"@
}

/// The origin of the login service.
pub open spec fn login_origin() -> Seq<char> {
    "https://login.wx2.qq.com"@
}

/// The request for a login UUID, made at `now_ms`.
pub open spec fn qr_login_url_spec(now_ms: u64) -> Seq<char> {
    login_origin() + "/jslogin?appid="@ + app_id() + "&redirect_uri="@ + percent_encoded(
        percent_encoded(new_login_page()),
    ) + "&fun=new&lang=zh_CN&_="@ + decimal(now_ms as nat)
}

/// The request for a login UUID.
pub fn qr_login_url(now_ms: u64) -> (r: String)
    ensures
        r@ == qr_login_url_spec(now_ms),
{
    let once = percent_encode("https://szfilehelper.weixin.qq.com/cgi-bin/mmwebwx-bin/webwxnewloginpage");
    let twice = percent_encode(once.as_str());
    let a = concat("https://login.wx2.qq.com", "/jslogin?appid=");
    let b = concat(a.as_str(), "wx_webfilehelper");
    let c = concat(b.as_str(), "&redirect_uri=");
    let d = concat(c.as_str(), twice.as_str());
    let e = concat(d.as_str(), "&fun=new&lang=zh_CN&_=");
    let now = u64_to_decimal(now_ms);
    concat(e.as_str(), now.as_str())
}

/// What a login UUID may consist of.
pub open spec fn uuid_pattern() -> Seq<char> {
    r"^[A-Za-z0-9_+/=-]+$"@
}

/// The login UUID announced by the login script.
pub fn qr_uuid(text: &str) -> (r: Result<String, WechatError>)
    ensures
        !contains(text@, "window.QRLogin.code = 200"@) ==> r == Err::<String, WechatError>(WechatError::MissingUuid),
        contains(text@, "window.QRLogin.code = 200"@) ==> match script_string(text@, "window.QRLogin.uuid"@) {
            None => r == Err::<String, WechatError>(WechatError::UnreadableUuid),
            Some(u) => if regex_matches(uuid_pattern(), u) {
                r matches Ok(x) && x@ == u
            } else {
                r == Err::<String, WechatError>(WechatError::InvalidUuid)
            },
        },
        contains(text@, "window.QRLogin.code = 200"@) ==> match script_string(text@, "window.QRLogin.uuid"@) {
            Some(u) => if u.len() > 0 && forall|i: int| 0 <= i < u.len() ==> is_token_char(#[trigger] u[i]) {
                r matches Ok(x) && x@ == u
            } else {
                r == Err::<String, WechatError>(WechatError::InvalidUuid)
            },
            None => true,
        },
{
    let succeeded = str_contains(text, "window.QRLogin.code = 200");
    if !succeeded {
        return uuid_decision(false, None, false);
    }
    let uuid = parse_script_string(text, "window.QRLogin.uuid");
    let well_formed = match &uuid {
        Some(u) => regex_is_match(r"^[A-Za-z0-9_+/=-]+$", u.as_str()),
        None => false,
    };
    uuid_decision(true, uuid, well_formed)
}

/// The login UUID of a QR answer, given whether the answer reported
/// success, the UUID it assigned and whether that UUID is well formed.
pub fn uuid_decision(succeeded: bool, uuid: Option<String>, well_formed: bool) -> (r: Result<String, WechatError>)
    ensures
        !succeeded ==> r == Err::<String, WechatError>(WechatError::MissingUuid),
        succeeded ==> match uuid {
            None => r == Err::<String, WechatError>(WechatError::UnreadableUuid),
            Some(u) => if well_formed {
                r matches Ok(x) && x@ == u@
            } else {
                r == Err::<String, WechatError>(WechatError::InvalidUuid)
            },
        },
{
    if !succeeded {
        return Err(WechatError::MissingUuid);
    }
    match uuid {
        None => Err(WechatError::UnreadableUuid),
        Some(u) => if well_formed {
            Ok(u)
        } else {
            Err(WechatError::InvalidUuid)
        },
    }
}

/// Where the QR code image of a login UUID is served.
pub fn qr_image_url(uuid: &str) -> (r: String)
    ensures
        r@ == "https://login.weixin.qq.com/qrcode/"@ + uuid@,
{
    concat("https://login.weixin.qq.com/qrcode/", uuid)
}

/// The QR code to show: the image must be a known image of at least 100 bytes.
pub fn qr_result(uuid: String, bytes: &[u8]) -> (r: Result<WechatQrResult, WechatError>)
    ensures
        match sniffed_mime(bytes@) {
            Some(m) => if bytes@.len() >= 100 {
                r matches Ok(q) && q.uuid == uuid && q.data_url@ == data_url_spec(m, bytes@)
            } else {
                r == Err::<WechatQrResult, WechatError>(WechatError::QrNotImage)
            },
            None => r == Err::<WechatQrResult, WechatError>(WechatError::QrNotImage),
        },
{
    match sniff_image_mime(bytes) {
        Some(mime) => {
            if bytes.len() >= 100 {
                Ok(WechatQrResult { uuid, data_url: data_url(mime, bytes) })
            } else {
                Err(WechatError::QrNotImage)
            }
        },
        None => Err(WechatError::QrNotImage),
    }
}

/// The long poll that waits for the QR code to be scanned and confirmed.
pub open spec fn poll_url_spec(uuid: Seq<char>, tip: u8, now_ms: u64) -> Seq<char> {
    login_origin() + "/cgi-bin/mmwebwx-bin/login?loginicon=true&uuid="@ + percent_encoded(uuid) + "&tip="@
        + decimal(tip as nat) + "&appid="@ + app_id() + "&_="@ + decimal(now_ms as nat)
}

/// The long poll that waits for the QR code to be scanned and confirmed.
pub fn poll_url(uuid: &str, tip: u8, now_ms: u64) -> (r: String)
    ensures
        r@ == poll_url_spec(uuid@, tip, now_ms),
{
    let encoded = percent_encode(uuid);
    let a = concat("https://login.wx2.qq.com", "/cgi-bin/mmwebwx-bin/login?loginicon=true&uuid=");
    let b = concat(a.as_str(), encoded.as_str());
    let c = concat(b.as_str(), "&tip=");
    let t = u64_to_decimal(tip as u64);
    let d = concat(c.as_str(), t.as_str());
    let e = concat(d.as_str(), "&appid=");
    let f = concat(e.as_str(), "wx_webfilehelper");
    let g = concat(f.as_str(), "&_=");
    let now = u64_to_decimal(now_ms);
    concat(g.as_str(), now.as_str())
}

/// What one answer of the login poll means.
#[derive(Debug)]
pub enum PollStep {
    /// The login is not complete; the state to show.
    State(WechatLoginState),
    /// The login was confirmed; the session is set up from this address.
    Confirmed(String),
}

/// Reads one answer of the login poll; `None` when the poll failed or
/// its status was not a success, which counts as still waiting.
pub fn poll_step(reply: Option<&str>) -> (r: Result<PollStep, WechatError>)
    ensures
        reply is None ==> (r matches Ok(PollStep::State(s)) && s.state@ == "waiting"@),
        reply matches Some(t) ==> {
            let code = script_number(t@);
            &&& code == Some(201i64) ==> (r matches Ok(PollStep::State(s)) && s.state@ == "scanned"@)
            &&& code == Some(400i64) ==> (r matches Ok(PollStep::State(s)) && s.state@ == "expired"@)
            &&& code == Some(200i64) ==> match script_string(t@, "window.redirect_uri"@) {
                Some(u) => r matches Ok(PollStep::Confirmed(x)) && x@ == u,
                None => r == Err::<PollStep, WechatError>(WechatError::MissingRedirect),
            }
            &&& code != Some(201i64) && code != Some(400i64) && code != Some(200i64) ==> (r matches Ok(
                PollStep::State(s),
            ) && s.state@ == "waiting"@)
        },
{
    let text = match reply {
        Some(t) => t,
        None => return Ok(PollStep::State(login_state("waiting"))),
    };
    let code = parse_script_number(text);
    let redirect = if code == Some(200i64) {
        parse_script_string(text, "window.redirect_uri")
    } else {
        None
    };
    poll_decision(code, redirect)
}

/// What a poll answer means, given the code it assigned to `window.code`
/// and, for code 200, the address it assigned to `window.redirect_uri`.
pub fn poll_decision(code: Option<i64>, redirect: Option<String>) -> (r: Result<PollStep, WechatError>)
    ensures
        code == Some(201i64) ==> (r matches Ok(PollStep::State(s)) && s.state@ == "scanned"@),
        code == Some(400i64) ==> (r matches Ok(PollStep::State(s)) && s.state@ == "expired"@),
        code == Some(200i64) ==> match redirect {
            Some(u) => r matches Ok(PollStep::Confirmed(x)) && x@ == u@,
            None => r == Err::<PollStep, WechatError>(WechatError::MissingRedirect),
        },
        code != Some(201i64) && code != Some(400i64) && code != Some(200i64) ==> (r matches Ok(
            PollStep::State(s),
        ) && s.state@ == "waiting"@),
{
    if code == Some(201i64) {
        return Ok(PollStep::State(login_state("scanned")));
    }
    if code == Some(400i64) {
        return Ok(PollStep::State(login_state("expired")));
    }
    if code != Some(200i64) {
        return Ok(PollStep::State(login_state("waiting")));
    }
    match redirect {
        Some(uri) => Ok(PollStep::Confirmed(uri)),
        None => Err(WechatError::MissingRedirect),
    }
}

// ------------------------------------------------------------------
// Setting up the session
// ------------------------------------------------------------------

/// Whether one of `pairs` is named `key`.
pub open spec fn has_key(pairs: Seq<(Seq<char>, Seq<char>)>, key: Seq<char>) -> bool {
    exists|i: int| 0 <= i < pairs.len() && (#[trigger] pairs[i]).0 == key
}

/// The query of the session page: the pairs of the redirect address, then
/// `fun=new`, `version=v2` and `lang=zh_CN` where the address lacks them.
pub open spec fn login_page_pairs(source: Seq<(Seq<char>, Seq<char>)>) -> Seq<(Seq<char>, Seq<char>)> {
    let a = if has_key(source, "fun"@) { source } else { source.push(("fun"@, "new"@)) };
    let b = if has_key(source, "version"@) { a } else { a.push(("version"@, "v2"@)) };
    if has_key(source, "lang"@) { b } else { b.push(("lang"@, "zh_CN"@)) }
}

/// Whether one of `pairs` is named `key`.
fn pairs_have_key(pairs: &Vec<(String, String)>, key: &str) -> (r: bool)
    ensures
        r == has_key(pairs@.map_values(|p: (String, String)| pair_text(p)), key@),
{
    let ghost view = pairs@.map_values(|p: (String, String)| pair_text(p));
    let mut i: usize = 0;
    while i < pairs.len()
        invariant
            i <= pairs.len(),
            view == pairs@.map_values(|p: (String, String)| pair_text(p)),
            forall|j: int| 0 <= j < i ==> (#[trigger] view[j]).0 != key@,
        decreases pairs.len() - i,
    {
        assert(view[i as int] == pair_text(pairs@[i as int]));
        if str_eq(pairs[i].0.as_str(), key) {
            return true;
        }
        i = i + 1;
    }
    false
}

/// Appends a pair of texts.
fn push_pair(pairs: &mut Vec<(String, String)>, key: &str, value: &str)
    ensures
        final(pairs)@.map_values(|p: (String, String)| pair_text(p)) == old(pairs)@.map_values(
            |p: (String, String)| pair_text(p),
        ).push((key@, value@)),
{
    pairs.push((owned(key), owned(value)));
    assert(pairs@.map_values(|p: (String, String)| pair_text(p)) =~= old(pairs)@.map_values(
        |p: (String, String)| pair_text(p),
    ).push((key@, value@)));
}

/// The session page to open once the login was confirmed at `redirect_uri`.
pub fn login_page_url(redirect_uri: &str) -> (r: Result<String, WechatError>)
    ensures
        !url_parses(redirect_uri@) ==> (r matches Err(WechatError::InvalidUrl(t)) && t@ == url_error_text(
            redirect_uri@,
        )),
        url_parses(redirect_uri@) ==> match url_with_pairs(new_login_page(), login_page_pairs(url_query_pairs(redirect_uri@))) {
            Some(u) => r matches Ok(x) && x@ == u,
            None => r matches Err(WechatError::InvalidUrl(t)) && t@ == url_error_text(new_login_page()),
        },
{
    let mut pairs = match parse_url(redirect_uri) {
        Ok(p) => p.query,
        Err(text) => return Err(WechatError::InvalidUrl(text)),
    };
    let ghost source = url_query_pairs(redirect_uri@);
    let has_fun = pairs_have_key(&pairs, "fun");
    let has_version = pairs_have_key(&pairs, "version");
    let has_lang = pairs_have_key(&pairs, "lang");
    if !has_fun {
        push_pair(&mut pairs, "fun", "new");
    }
    if !has_version {
        push_pair(&mut pairs, "version", "v2");
    }
    if !has_lang {
        push_pair(&mut pairs, "lang", "zh_CN");
    }
    let page = "https://szfilehelper.weixin.qq.com/cgi-bin/mmwebwx-bin/webwxnewloginpage";
    assert(page@ == new_login_page());
    assert(pairs@.map_values(|p: (String, String)| pair_text(p)) == login_page_pairs(source));
    match with_query_pairs(page, pairs.as_slice()) {
        Some(u) => Ok(u),
        None => Err(WechatError::InvalidUrl(url_error_of(page))),
    }
}

/// The error text of an address that does not parse.
fn url_error_of(raw: &str) -> (r: String)
    requires
        !url_parses(raw@),
    ensures
        r@ == url_error_text(raw@),
{
    match parse_url(raw) {
        Ok(_) => String::new(),
        Err(t) => t,
    }
}


/// The credentials of the session page, or why it refused the login.
pub open spec fn login_page_session_ok(xml: Seq<char>) -> bool {
    let ret = xml_field(xml, "ret"@);
    &&& !(ret.len() > 0 && ret != "0"@)
    &&& xml_field(xml, "wxuin"@).len() > 0
    &&& xml_field(xml, "wxsid"@).len() > 0
    &&& xml_field(xml, "skey"@).len() > 0
    &&& xml_field(xml, "pass_ticket"@).len() > 0
}

/// Reads the credentials from the session page; the session starts with
/// the given device id and no synchronisation key.
pub fn session_from_login_page(xml: &str, device_id: String) -> (r: Result<WechatSession, WechatError>)
    ensures
        ({
            let ret = xml_field(xml@, "ret"@);
            ret.len() > 0 && ret != "0"@ ==> (r matches Err(WechatError::LoginRejected(t)) && t@ == ret)
        }),
        ({
            let ret = xml_field(xml@, "ret"@);
            !(ret.len() > 0 && ret != "0"@) && !login_page_session_ok(xml@) ==> r == Err::<WechatSession, WechatError>(
                WechatError::IncompleteCredentials,
            )
        }),
        login_page_session_ok(xml@) ==> (r matches Ok(s) && {
            &&& s.uin@ == xml_field(xml@, "wxuin"@)
            &&& s.sid@ == xml_field(xml@, "wxsid"@)
            &&& s.skey@ == xml_field(xml@, "skey"@)
            &&& s.pass_ticket@ == xml_field(xml@, "pass_ticket"@)
            &&& s.device_id == device_id
            &&& s.sync_key@.len() == 0
        }),
{
    let ret = parse_xml_field(xml, "ret");
    if !ret.as_str().is_empty() && !str_eq(ret.as_str(), "0") {
        return Err(WechatError::LoginRejected(ret));
    }
    proof {
        reveal_strlit("0");
    }
    let session = WechatSession {
        uin: parse_xml_field(xml, "wxuin"),
        sid: parse_xml_field(xml, "wxsid"),
        skey: parse_xml_field(xml, "skey"),
        pass_ticket: parse_xml_field(xml, "pass_ticket"),
        device_id,
        sync_key: Vec::new(),
    };
    if session.uin.as_str().is_empty() || session.sid.as_str().is_empty() || session.skey.as_str().is_empty()
        || session.pass_ticket.as_str().is_empty() {
        return Err(WechatError::IncompleteCredentials);
    }
    Ok(session)
}

/// The cache-busting number of the init request: the bitwise complement
/// of the time in milliseconds taken as an `i64`.
pub open spec fn init_stamp(now_ms: u64) -> int {
    -((now_ms as i64) as int) - 1
}

/// The init request of a session, made at `now_ms`.
pub open spec fn init_url_spec(session: WechatSession, now_ms: u64) -> Option<Seq<char>> {
    url_with_pairs(
        filehelper_origin() + "/cgi-bin/mmwebwx-bin/webwxinit"@,
        seq![
            ("r"@, signed_decimal(init_stamp(now_ms))),
            ("lang"@, "zh_CN"@),
            ("pass_ticket"@, session.pass_ticket@),
            ("skey"@, session.skey@),
        ],
    )
}

/// The init request of a session.
pub fn init_url(session: &WechatSession, now_ms: u64) -> (r: Result<String, WechatError>)
    ensures
        match init_url_spec(*session, now_ms) {
            Some(u) => r matches Ok(x) && x@ == u,
            None => r matches Err(WechatError::InvalidUrl(t)) && t@ == url_error_text(filehelper_origin() + "/cgi-bin/mmwebwx-bin/webwxinit"@),
        },
{
    let stamp: i64 = now_ms as i64;
    let complement: i64 = !stamp;
    assert(complement == -stamp - 1) by (bit_vector)
        requires
            complement == !stamp,
    ;
    let pairs = vec![
        (owned("r"), i64_to_decimal(complement)),
        (owned("lang"), owned("zh_CN")),
        (owned("pass_ticket"), session.pass_ticket.clone()),
        (owned("skey"), session.skey.clone()),
    ];
    assert(pairs@.map_values(|p: (String, String)| pair_text(p)) =~= seq![
        ("r"@, signed_decimal(init_stamp(now_ms))),
        ("lang"@, "zh_CN"@),
        ("pass_ticket"@, session.pass_ticket@),
        ("skey"@, session.skey@),
    ]);
    let endpoint = concat("https://szfilehelper.weixin.qq.com", "/cgi-bin/mmwebwx-bin/webwxinit");
    match with_query_pairs(endpoint.as_str(), pairs.as_slice()) {
        Some(u) => Ok(u),
        None => Err(WechatError::InvalidUrl(url_error_of(endpoint.as_str()))),
    }
}

/// The `i64` at `outer.inner` of a JSON object.
pub open spec fn nested_i64(data: JsonValue, outer: Seq<char>, inner: Seq<char>) -> Option<i64> {
    match get_spec(data, outer) {
        Some(v) => field_i64(v, inner),
        None => None,
    }
}

/// The `i64` at `outer.inner` of a JSON object.
fn get_nested_i64(data: &JsonValue, outer: &str, inner: &str) -> (r: Option<i64>)
    ensures
        r == nested_i64(*data, outer@, inner@),
{
    match data.get(outer) {
        Some(v) => get_i64(v, inner),
        None => None,
    }
}

/// Checks the answer of the init request: a non-zero `BaseResponse.Ret` refuses it.
pub fn check_init(data: &JsonValue) -> (r: Result<(), WechatError>)
    ensures
        match nested_i64(*data, "BaseResponse"@, "Ret"@) {
            Some(ret) => if ret != 0 {
                r == Err::<(), WechatError>(WechatError::InitRejected)
            } else {
                r is Ok
            },
            None => r is Ok,
        },
{
    match get_nested_i64(data, "BaseResponse", "Ret") {
        Some(ret) => if ret != 0 {
            Err(WechatError::InitRejected)
        } else {
            Ok(())
        },
        None => Ok(()),
    }
}

/// Completes a session with the synchronisation key of the init answer,
/// which must not be empty.
pub fn complete_session(session: WechatSession, sync_key: Vec<SyncKeyItem>) -> (r: Result<WechatSession, WechatError>)
    ensures
        sync_key@.len() == 0 ==> r == Err::<WechatSession, WechatError>(WechatError::MissingSyncKey),
        sync_key@.len() > 0 ==> (r matches Ok(s) && s.uin == session.uin && s.sid == session.sid && s.skey
            == session.skey && s.pass_ticket == session.pass_ticket && s.device_id == session.device_id
            && s.sync_key@ == sync_key@),
{
    if sync_key.len() == 0 {
        return Err(WechatError::MissingSyncKey);
    }
    let mut session = session;
    session.sync_key = sync_key;
    Ok(session)
}

// ------------------------------------------------------------------
// Synchronisation
// ------------------------------------------------------------------

/// The synchronisation request of a session.
pub open spec fn sync_url_spec(session: WechatSession) -> Option<Seq<char>> {
    url_with_pairs(
        filehelper_origin() + "/cgi-bin/mmwebwx-bin/webwxsync"@,
        seq![("sid"@, session.sid@), ("skey"@, session.skey@), ("pass_ticket"@, session.pass_ticket@)],
    )
}

/// The synchronisation request of a session.
pub fn sync_url(session: &WechatSession) -> (r: Result<String, WechatError>)
    ensures
        match sync_url_spec(*session) {
            Some(u) => r matches Ok(x) && x@ == u,
            None => r matches Err(WechatError::InvalidUrl(t)) && t@ == url_error_text(filehelper_origin() + "/cgi-bin/mmwebwx-bin/webwxsync"@),
        },
{
    let pairs = vec![
        (owned("sid"), session.sid.clone()),
        (owned("skey"), session.skey.clone()),
        (owned("pass_ticket"), session.pass_ticket.clone()),
    ];
    assert(pairs@.map_values(|p: (String, String)| pair_text(p)) =~= seq![
        ("sid"@, session.sid@),
        ("skey"@, session.skey@),
        ("pass_ticket"@, session.pass_ticket@),
    ]);
    let endpoint = concat("https://szfilehelper.weixin.qq.com", "/cgi-bin/mmwebwx-bin/webwxsync");
    match with_query_pairs(endpoint.as_str(), pairs.as_slice()) {
        Some(u) => Ok(u),
        None => Err(WechatError::InvalidUrl(url_error_of(endpoint.as_str()))),
    }
}

/// The logout request of a session key.
pub open spec fn logout_url_spec(skey: Seq<char>) -> Option<Seq<char>> {
    url_with_pairs(
        filehelper_origin() + "/cgi-bin/mmwebwx-bin/webwxlogout"@,
        seq![("redirect"@, "1"@), ("type"@, "0"@), ("skey"@, skey)],
    )
}

/// The logout request of a session key.
pub fn logout_url(skey: &str) -> (r: Result<String, WechatError>)
    ensures
        match logout_url_spec(skey@) {
            Some(u) => r matches Ok(x) && x@ == u,
            None => r matches Err(WechatError::InvalidUrl(t)) && t@ == url_error_text(filehelper_origin() + "/cgi-bin/mmwebwx-bin/webwxlogout"@),
        },
{
    let pairs = vec![(owned("redirect"), owned("1")), (owned("type"), owned("0")), (owned("skey"), owned(skey))];
    assert(pairs@.map_values(|p: (String, String)| pair_text(p)) =~= seq![("redirect"@, "1"@), ("type"@, "0"@), ("skey"@, skey@)]);
    let endpoint = concat("https://szfilehelper.weixin.qq.com", "/cgi-bin/mmwebwx-bin/webwxlogout");
    match with_query_pairs(endpoint.as_str(), pairs.as_slice()) {
        Some(u) => Ok(u),
        None => Err(WechatError::InvalidUrl(url_error_of(endpoint.as_str()))),
    }
}

/// What one synchronisation round found.
#[derive(Debug, Clone, Copy, PartialEq, Eq, Structural)]
pub enum ScanOutcome {
    /// The session is alive.
    Active,
    /// The session ended, with the status the server gave.
    SessionExpired(i64),
}

/// Reads the status of a synchronisation answer: `BaseResponse.Ret` must be
/// there; zero keeps the session alive, any other value ends it.
pub fn scan_outcome(data: &JsonValue) -> (r: Result<ScanOutcome, WechatError>)
    ensures
        match nested_i64(*data, "BaseResponse"@, "Ret"@) {
            None => r == Err::<ScanOutcome, WechatError>(WechatError::MissingSyncStatus),
            Some(ret) => if ret == 0 {
                r == Ok::<ScanOutcome, WechatError>(ScanOutcome::Active)
            } else {
                r == Ok::<ScanOutcome, WechatError>(ScanOutcome::SessionExpired(ret))
            },
        },
{
    match get_nested_i64(data, "BaseResponse", "Ret") {
        None => Err(WechatError::MissingSyncStatus),
        Some(ret) => if ret == 0 {
            Ok(ScanOutcome::Active)
        } else {
            Ok(ScanOutcome::SessionExpired(ret))
        },
    }
}

/// The items of the array member `key` of an object (none when it is not an array).
pub open spec fn array_items(data: JsonValue, key: Seq<char>) -> Seq<JsonValue> {
    match get_spec(data, key) {
        Some(JsonValue::Array(items)) => items@,
        _ => Seq::empty(),
    }
}

/// Appends references to the items of an array member.
fn push_items<'a>(out: &mut Vec<&'a JsonValue>, data: &'a JsonValue, key: &str)
    ensures
        final(out)@.map_values(|x: &JsonValue| *x) == old(out)@.map_values(|x: &JsonValue| *x) + array_items(*data, key@),
{
    let ghost before = out@.map_values(|x: &JsonValue| *x);
    match data.get(key) {
        Some(JsonValue::Array(items)) => {
            let mut i: usize = 0;
            while i < items.len()
                invariant
                    i <= items.len(),
                    get_spec(*data, key@) == Some(JsonValue::Array(*items)),
                    out@.map_values(|x: &JsonValue| *x) == before + items@.take(i as int),
                decreases items.len() - i,
            {
                let ghost prior = out@.map_values(|x: &JsonValue| *x);
                out.push(&items[i]);
                assert(out@.map_values(|x: &JsonValue| *x) =~= prior.push(items@[i as int]));
                assert(items@.take(i + 1) =~= items@.take(i as int).push(items@[i as int]));
                i = i + 1;
            }
            assert(items@.take(items.len() as int) == items@);
        },
        _ => {
            assert(before + array_items(*data, key@) =~= before);
        },
    }
}

/// The messages of a synchronisation answer: `AddMsgList`, then `MsgList`.
pub fn sync_messages(data: &JsonValue) -> (r: Vec<&JsonValue>)
    ensures
        r@.map_values(|x: &JsonValue| *x) == array_items(*data, "AddMsgList"@) + array_items(*data, "MsgList"@),
{
    let mut out: Vec<&JsonValue> = Vec::new();
    assert(out@.map_values(|x: &JsonValue| *x) =~= Seq::<JsonValue>::empty());
    push_items(&mut out, data, "AddMsgList");
    assert(Seq::<JsonValue>::empty() + array_items(*data, "AddMsgList"@) =~= array_items(*data, "AddMsgList"@));
    push_items(&mut out, data, "MsgList");
    out
}

// ------------------------------------------------------------------
// Device id
// ------------------------------------------------------------------

/// `digits` padded on the left with zeros to `width` characters.
pub open spec fn zero_padded(digits: Seq<char>, width: nat) -> Seq<char> {
    if digits.len() < width {
        Seq::new((width - digits.len()) as nat, |i: int| '0') + digits
    } else {
        digits
    }
}

/// The device id for a number: `e` and the number in fifteen digits.
pub open spec fn device_id_text(value: nat) -> Seq<char> {
    seq!['e'] + zero_padded(decimal(value), 15)
}

/// The device id for a number.
pub fn device_id_for(value: u64) -> (r: String)
    ensures
        r@ == device_id_text(value as nat),
{
    let digits = u64_to_decimal(value);
    let cs = chars_of(digits.as_str());
    let mut out = String::new();
    out.push('e');
    let mut pad: usize = 0;
    let width: usize = if cs.len() < 15 { 15 - cs.len() } else { 0 };
    while pad < width
        invariant
            pad <= width,
            cs@ == digits@,
            width == if digits@.len() < 15 { 15 - digits@.len() } else { 0 },
            out@ == seq!['e'] + Seq::new(pad as nat, |i: int| '0'),
        decreases width - pad,
    {
        out.push('0');
        pad = pad + 1;
        assert(out@ =~= seq!['e'] + Seq::new(pad as nat, |i: int| '0'));
    }
    let ghost before = out@;
    let mut i: usize = 0;
    while i < cs.len()
        invariant
            i <= cs.len(),
            cs@ == digits@,
            out@ == before + digits@.take(i as int),
        decreases cs.len() - i,
    {
        out.push(cs[i]);
        i = i + 1;
        assert(digits@.take(i as int) == digits@.take(i - 1).push(digits@[i - 1]));
    }
    assert(digits@.take(cs.len() as int) == digits@);
    if cs.len() < 15 {
        assert(out@ =~= device_id_text(value as nat));
    } else {
        assert(Seq::new(0nat, |i: int| '0') =~= Seq::<char>::empty());
        assert(out@ =~= device_id_text(value as nat));
    }
    out
}

/// A number drawn uniformly from `0..bound` by the thread-local generator
/// of `rand` (`rand::rng().random_range(0..bound)`).
#[verifier::external_body]
fn random_below(bound: u64) -> (r: u64)
    requires
        bound > 0,
    ensures
        r < bound,
{
    rand::Rng::random_range(&mut rand::rng(), 0..bound)
}

/// How many device ids there are: fifteen digits.
pub const DEVICE_ID_RANGE: u64 = 1000000000000000;

/// A fresh random device id.
pub fn create_device_id() -> (r: String)
    ensures
        exists|v: nat| v < DEVICE_ID_RANGE && r@ == device_id_text(v),
{
    let value = random_below(DEVICE_ID_RANGE);
    let r = device_id_for(value);
    assert(r@ == device_id_text(value as nat));
    r
}

/// Ten to the power `d`.
pub open spec fn pow10(d: nat) -> nat
    decreases d,
{
    if d == 0 { 1 } else { 10 * pow10((d - 1) as nat) }
}

/// A number below `10^d` has at most `d` decimal digits.
proof fn lemma_decimal_len(n: nat, d: nat)
    requires
        n < pow10(d),
        d >= 1,
    ensures
        decimal(n).len() <= d,
    decreases d,
{
    if n >= 10 {
        if d == 1 {
            assert(pow10(1) == 10) by {
                reveal_with_fuel(pow10, 2);
            }
        } else {
            assert(n / 10 < pow10((d - 1) as nat));
            lemma_decimal_len(n / 10, (d - 1) as nat);
        }
    }
}

/// Law: a device id is `e` followed by exactly fifteen decimal digits.
pub proof fn law_device_id(v: nat)
    requires
        v < DEVICE_ID_RANGE,
    ensures
        device_id_text(v).len() == 16,
        device_id_text(v)[0] == 'e',
{
    assert(pow10(15) == DEVICE_ID_RANGE) by {
        reveal_with_fuel(pow10, 16);
    }
    lemma_decimal_len(v, 15);
}

// ------------------------------------------------------------------
// Message fields
// ------------------------------------------------------------------

/// How a message id is written: a string as it is, any other value as its
/// compact JSON text.
pub open spec fn value_text(v: JsonValue) -> Seq<char> {
    match v {
        JsonValue::Text(s) => s@,
        _ => compact_text(v),
    }
}

/// A JSON value as text: a string as it is, any other value as compact JSON.
pub fn value_to_string(value: &JsonValue) -> (r: String)
    ensures
        r@ == value_text(*value),
{
    match value {
        JsonValue::Text(s) => s.clone(),
        _ => to_compact_text(value),
    }
}


/// The text member `key` of an object.
pub open spec fn field_str(value: JsonValue, key: Seq<char>) -> Option<Seq<char>> {
    match get_spec(value, key) {
        Some(v) => str_spec(v),
        None => None,
    }
}

/// The text member `key` of an object.
fn get_str<'a>(value: &'a JsonValue, key: &str) -> (r: Option<&'a str>)
    ensures
        opt_str(r) == field_str(*value, key@),
{
    match value.get(key) {
        Some(v) => v.as_str(),
        None => None,
    }
}

/// The text of a message (empty when it has none).
pub open spec fn message_content(m: JsonValue) -> Seq<char> {
    match field_str(m, "Content"@) {
        Some(c) => c,
        None => Seq::empty(),
    }
}

/// The id of a message: its `NewMsgId`, else its `MsgId`, as text.
pub open spec fn message_id(m: JsonValue) -> Option<Seq<char>> {
    match get_spec(m, "NewMsgId"@) {
        Some(v) => Some(value_text(v)),
        None => match get_spec(m, "MsgId"@) {
            Some(v) => Some(value_text(v)),
            None => None,
        },
    }
}

/// The `i64` member `key` of an object, 0 when absent.
pub open spec fn field_i64_or_zero(m: JsonValue, key: Seq<char>) -> i64 {
    match field_i64(m, key) {
        Some(t) => t,
        None => 0,
    }
}

/// Whether a message is a sticker sent to the file-transfer assistant: a
/// sticker message (type 47) or an album placeholder, with a text or an id.
pub open spec fn sticker_message(m: JsonValue) -> bool {
    let content = message_content(m);
    &&& field_str(m, "ToUserName"@) == Some("filehelper"@)
    &&& (field_i64_or_zero(m, "MsgType"@) == 47 || product_sticker(m, content))
    &&& !(content.len() == 0 && message_id(m) is None)
}

/// The key under which a sticker message is remembered: its MD5, else its
/// id, else the first 120 characters of its text.
pub open spec fn message_key(m: JsonValue) -> Seq<char> {
    let content = message_content(m);
    match emoji_md5(content) {
        Some(h) => "md5:"@ + h,
        None => match message_id(m) {
            Some(id) => "message:"@ + id,
            None => take_chars(content, 120),
        },
    }
}

/// What to do with one message of a synchronisation answer.
#[derive(Debug)]
pub enum MessagePlan {
    /// Not a sticker for the library, or one already handled.
    Skip,
    /// A sticker that cannot be imported; `product` when it is an album or
    /// store sticker, else one without any URL.
    Unsupported { key: String, product: bool },
    /// A sticker to download from the first of `urls` that works.
    Download {
        key: String,
        urls: Vec<String>,
        md5: Option<String>,
        msg_type: i64,
        img_status: i64,
        has_product_id: i64,
    },
}

/// The plan for message `m`, given the keys already handled and the
/// session key.
pub open spec fn plan_holds(r: MessagePlan, seen: Set<Seq<char>>, m: JsonValue, skey: Seq<char>) -> bool {
    let content = message_content(m);
    let key = message_key(m);
    let urls = download_urls(content, message_id(m), skey);
    if !sticker_message(m) || seen.contains(key) {
        r is Skip
    } else if product_sticker(m, content) {
        r matches MessagePlan::Unsupported { key: k, product } && k@ == key && product
    } else if urls.len() == 0 {
        r matches MessagePlan::Unsupported { key: k, product } && k@ == key && !product
    } else {
        r matches MessagePlan::Download { key: k, urls: u, md5, msg_type, img_status, has_product_id } && {
            &&& k@ == key
            &&& texts(u@) == urls
            &&& opt_text(md5) == emoji_md5(content)
            &&& msg_type == field_i64_or_zero(m, "MsgType"@)
            &&& img_status == field_i64_or_zero(m, "ImgStatus"@)
            &&& has_product_id == field_i64_or_zero(m, "HasProductId"@)
        }
    }
}

/// The keys of stickers already handled in this session.
pub struct SeenKeys {
    keys: Vec<String>,
}

impl View for SeenKeys {
    type V = Set<Seq<char>>;

    closed spec fn view(&self) -> Set<Seq<char>> {
        Set::new(|k: Seq<char>| texts(self.keys@).contains(k))
    }
}

impl SeenKeys {
    /// No key.
    pub fn new() -> (r: Self)
        ensures
            r@ == Set::<Seq<char>>::empty(),
    {
        let r = SeenKeys { keys: Vec::new() };
        assert(r@ =~= Set::<Seq<char>>::empty());
        r
    }

    /// Whether `key` was handled.
    pub fn contains(&self, key: &str) -> (r: bool)
        ensures
            r == self@.contains(key@),
    {
        texts_contain(&self.keys, key)
    }

    /// Remembers `key`.
    pub fn insert(&mut self, key: String)
        ensures
            final(self)@ == old(self)@.insert(key@),
    {
        let ghost k = key@;
        self.keys.push(key);
        assert(texts(self.keys@) =~= texts(old(self).keys@).push(k));
        assert forall|x: Seq<char>| #[trigger] texts(self.keys@).contains(x) <==> (texts(old(self).keys@).contains(x) || x == k) by {
            lemma_contains_split(texts(self.keys@));
            assert(texts(self.keys@).drop_last() == texts(old(self).keys@));
        }
        assert(self@ =~= old(self)@.insert(k));
    }

    /// Forgets `key`.
    pub fn remove(&mut self, key: &str)
        ensures
            final(self)@ == old(self)@.remove(key@),
    {
        let ghost old_texts = texts(self.keys@);
        let mut kept: Vec<String> = Vec::new();
        let mut i: usize = 0;
        while i < self.keys.len()
            invariant
                i <= self.keys.len(),
                old_texts == texts(self.keys@),
                forall|x: Seq<char>| #[trigger] texts(kept@).contains(x) <==> (old_texts.take(i as int).contains(x) && x != key@),
            decreases self.keys.len() - i,
        {
            let ghost before = texts(kept@);
            let ghost t = old_texts.take(i + 1);
            assert(t.drop_last() == old_texts.take(i as int));
            assert(t.last() == self.keys@[i as int]@);
            proof {
                lemma_contains_split(t);
            }
            if !str_eq(self.keys[i].as_str(), key) {
                kept.push(self.keys[i].clone());
                assert(texts(kept@) =~= before.push(self.keys@[i as int]@));
                proof {
                    lemma_contains_split(texts(kept@));
                }
                assert(texts(kept@).drop_last() == before);
            }
            i = i + 1;
        }
        assert(old_texts.take(self.keys.len() as int) == old_texts);
        self.keys = kept;
        assert(self@ =~= old(self)@.remove(key@));
    }

    /// Forgets every key.
    pub fn clear(&mut self)
        ensures
            final(self)@ == Set::<Seq<char>>::empty(),
    {
        self.keys = Vec::new();
        assert(self@ =~= Set::<Seq<char>>::empty());
    }
}

/// The tip shown for album and store stickers, which the web client does
/// not expose.
pub open spec fn product_sticker_tip() -> Seq<char> {
    "这是微信专辑或表情商店表情。微信网页版只返回占位消息，没有提供图片链接，因此无法自动迁移。请在手机端截图或保存为普通图片，发送到飞书后点击“＋ 添加表情”；动态表情需要先转换为 GIF。"@
}

/// The tally of one round of message processing.
#[derive(Debug)]
pub struct ImportTally {
    pub imported: usize,
    pub skipped: usize,
    pub unsupported: usize,
    pub latest: Option<StickerRecord>,
    pub warning: Option<String>,
}

impl ImportTally {
    /// Nothing counted yet.
    pub fn new() -> (r: Self)
        ensures
            r.imported == 0 && r.skipped == 0 && r.unsupported == 0 && r.latest is None && r.warning is None,
    {
        ImportTally { imported: 0, skipped: 0, unsupported: 0, latest: None, warning: None }
    }

    /// The event announcing the round, when anything was counted.
    pub fn event(self) -> (r: Option<StickerImportEvent>)
        ensures
            (self.imported > 0 || self.skipped > 0 || self.unsupported > 0) ==> (r matches Some(e) && e.imported
                == self.imported && e.skipped == self.skipped && e.unsupported == self.unsupported && e.latest
                == self.latest && e.warning == self.warning),
            !(self.imported > 0 || self.skipped > 0 || self.unsupported > 0) ==> r is None,
    {
        if self.imported > 0 || self.skipped > 0 || self.unsupported > 0 {
            Some(StickerImportEvent {
                imported: self.imported,
                skipped: self.skipped,
                unsupported: self.unsupported,
                latest: self.latest,
                warning: self.warning,
            })
        } else {
            None
        }
    }
}

/// The warning for a sticker that no URL delivered.
pub open spec fn download_failure_text(msg_type: i64, img_status: i64, has_product_id: i64, diagnostic: Seq<char>) -> Seq<char> {
    "微信表情下载失败（消息类型 "@ + signed_decimal(msg_type as int) + "，图片状态 "@ + signed_decimal(img_status as int)
        + "，专辑标记 "@ + signed_decimal(has_product_id as int) + "）："@ + diagnostic
}

/// The warning for a sticker that no URL delivered.
fn download_failure_warning(msg_type: i64, img_status: i64, has_product_id: i64, diagnostic: &str) -> (r: String)
    ensures
        r@ == download_failure_text(msg_type, img_status, has_product_id, diagnostic@),
{
    let t = i64_to_decimal(msg_type);
    let s = i64_to_decimal(img_status);
    let p = i64_to_decimal(has_product_id);
    let a = concat("微信表情下载失败（消息类型 ", t.as_str());
    let b = concat(a.as_str(), "，图片状态 ");
    let c = concat(b.as_str(), s.as_str());
    let d = concat(c.as_str(), "，专辑标记 ");
    let e = concat(d.as_str(), p.as_str());
    let f = concat(e.as_str(), "）：");
    concat(f.as_str(), diagnostic)
}

/// The state of the WeChat collector: the session, the stickers already
/// handled in it, and whether a saved session is being checked.
pub struct WechatCollector {
    session: Option<WechatSession>,
    seen: SeenKeys,
    restoring: bool,
}

/// The login state shown for a collector.
pub open spec fn status_text(restoring: bool, has_session: bool) -> Seq<char> {
    if restoring {
        "restoring"@
    } else if has_session {
        "logged-in"@
    } else {
        "idle"@
    }
}

impl WechatCollector {
    /// The session, when signed in.
    pub closed spec fn current(&self) -> Option<WechatSession> {
        self.session
    }

    /// The keys of the stickers already handled.
    pub closed spec fn seen_keys(&self) -> Set<Seq<char>> {
        self.seen@
    }

    /// Whether a restored session is still being checked.
    pub closed spec fn is_restoring(&self) -> bool {
        self.restoring
    }

    /// A collector, with the session restored from disk if there was one;
    /// a restored session is checked before it counts as signed in.
    pub fn new(restored: Option<WechatSession>) -> (r: Self)
        ensures
            r.current() == restored,
            r.seen_keys() == Set::<Seq<char>>::empty(),
            r.is_restoring() == restored is Some,
    {
        let restoring = restored.is_some();
        WechatCollector { session: restored, seen: SeenKeys::new(), restoring }
    }

    /// The login state to show.
    pub fn status(&self) -> (r: WechatLoginState)
        ensures
            r.state@ == status_text(self.is_restoring(), self.current() is Some),
    {
        if self.restoring {
            return login_state("restoring");
        }
        if self.session.is_some() {
            login_state("logged-in")
        } else {
            login_state("idle")
        }
    }

    /// The session, when signed in.
    pub fn session(&self) -> (r: Option<&WechatSession>)
        ensures
            match r {
                Some(s) => self.current() == Some(*s),
                None => self.current() is None,
            },
    {
        match &self.session {
            Some(s) => Some(s),
            None => None,
        }
    }

    /// The session a synchronisation round works with; without one the
    /// round ends as an expired session with status 0.
    pub fn scan_session(&self) -> (r: Result<WechatSession, ScanOutcome>)
        ensures
            self.current() is None ==> r == Err::<WechatSession, ScanOutcome>(ScanOutcome::SessionExpired(0)),
            self.current() matches Some(s) ==> (r matches Ok(c) && same_session(c, s)),
    {
        match &self.session {
            Some(s) => Ok(s.clone()),
            None => Err(ScanOutcome::SessionExpired(0)),
        }
    }

    /// Signs in with a new session.
    pub fn logged_in(&mut self, session: WechatSession)
        ensures
            final(self).current() == Some(session),
            final(self).seen_keys() == old(self).seen_keys(),
            !final(self).is_restoring(),
    {
        self.session = Some(session);
        self.restoring = false;
    }

    /// Forgets the session and every handled sticker.
    pub fn reset(&mut self)
        ensures
            final(self).current() is None,
            final(self).seen_keys() == Set::<Seq<char>>::empty(),
            !final(self).is_restoring(),
    {
        self.session = None;
        self.seen.clear();
        self.restoring = false;
    }

    /// Takes the synchronisation key of an answer, when it is not empty.
    pub fn update_sync_key(&mut self, next: Vec<SyncKeyItem>)
        ensures
            final(self).seen_keys() == old(self).seen_keys(),
            final(self).is_restoring() == old(self).is_restoring(),
            old(self).current() is None ==> final(self).current() is None,
            old(self).current() matches Some(s) ==> (final(self).current() matches Some(t) && {
                &&& t.uin == s.uin && t.sid == s.sid && t.skey == s.skey
                &&& t.pass_ticket == s.pass_ticket && t.device_id == s.device_id
                &&& t.sync_key@ == if next@.len() > 0 { next@ } else { s.sync_key@ }
            }),
    {
        if next.len() > 0 {
            if let Some(current) = self.session.take() {
                let mut current = current;
                current.sync_key = next;
                self.session = Some(current);
            }
        }
    }

    /// Forgets the stickers with the given MD5 digests, so that sending
    /// them again imports them again.
    pub fn forget_sticker_md5s(&mut self, md5s: &[String])
        ensures
            final(self).current() == old(self).current(),
            final(self).is_restoring() == old(self).is_restoring(),
            final(self).seen_keys() == old(self).seen_keys().difference(
                Set::new(|k: Seq<char>| exists|i: int| 0 <= i < md5s@.len() && k == "md5:"@ + (#[trigger] md5s@[i])@),
            ),
    {
        let ghost gone = Set::new(|k: Seq<char>| exists|i: int| 0 <= i < md5s@.len() && k == "md5:"@ + (#[trigger] md5s@[i])@);
        let mut i: usize = 0;
        while i < md5s.len()
            invariant
                i <= md5s.len(),
                self.session == old(self).session,
                self.restoring == old(self).restoring,
                self.seen@ == old(self).seen@.difference(
                    Set::new(|k: Seq<char>| exists|j: int| 0 <= j < i && k == "md5:"@ + (#[trigger] md5s@[j])@),
                ),
            decreases md5s.len() - i,
        {
            let key = concat("md5:", md5s[i].as_str());
            self.seen.remove(key.as_str());
            proof {
                let before = Set::new(|k: Seq<char>| exists|j: int| 0 <= j < i && k == "md5:"@ + (#[trigger] md5s@[j])@);
                let after = Set::new(|k: Seq<char>| exists|j: int| 0 <= j < i + 1 && k == "md5:"@ + (#[trigger] md5s@[j])@);
                assert(after =~= before.insert(key@)) by {
                    assert forall|k: Seq<char>| after.contains(k) implies before.insert(key@).contains(k) by {
                        let j = choose|j: int| 0 <= j < i + 1 && k == "md5:"@ + (#[trigger] md5s@[j])@;
                        if j < i {
                            assert(before.contains(k));
                        }
                    }
                    assert forall|k: Seq<char>| before.insert(key@).contains(k) implies after.contains(k) by {
                        if k == key@ {
                            assert(k == "md5:"@ + md5s@[i as int]@);
                        } else {
                            let j = choose|j: int| 0 <= j < i && k == "md5:"@ + (#[trigger] md5s@[j])@;
                            assert(0 <= j < i + 1 && k == "md5:"@ + md5s@[j]@);
                        }
                    }
                }
                assert(self.seen@ =~= old(self).seen@.difference(after));
            }
            i = i + 1;
        }
        assert(gone =~= Set::new(|k: Seq<char>| exists|j: int| 0 <= j < md5s.len() && k == "md5:"@ + (#[trigger] md5s@[j])@));
    }

    /// What to do with one message of a synchronisation answer.
    pub fn plan_message(&self, message: &JsonValue, skey: &str) -> (r: MessagePlan)
        ensures
            plan_holds(r, self.seen_keys(), *message, skey@),
    {
        let ghost m = *message;
        let to_filehelper = match get_str(message, "ToUserName") {
            Some(to) => str_eq(to, "filehelper"),
            None => false,
        };
        if !to_filehelper {
            return MessagePlan::Skip;
        }
        let content: &str = match get_str(message, "Content") {
            Some(c) => c,
            None => "",
        };
        proof {
            reveal_strlit("");
        }
        assert(content@ == message_content(m));
        let id_text: Option<String> = match message.get("NewMsgId") {
            Some(v) => Some(value_to_string(v)),
            None => match message.get("MsgId") {
                Some(v) => Some(value_to_string(v)),
                None => None,
            },
        };
        assert(opt_text(id_text) == message_id(m));
        let msg_type: i64 = match get_i64(message, "MsgType") {
            Some(t) => t,
            None => 0,
        };
        let product = is_product_sticker_message(message, content);
        if msg_type != 47 && !product {
            return MessagePlan::Skip;
        }
        if content.is_empty() && id_text.is_none() {
            return MessagePlan::Skip;
        }
        assert(sticker_message(m));
        let md5 = extract_emoji_md5(content);
        let key: String = match &md5 {
            Some(h) => concat("md5:", h.as_str()),
            None => match &id_text {
                Some(id) => concat("message:", id.as_str()),
                None => prefix_chars(content, 120),
            },
        };
        assert(key@ == message_key(m));
        if self.seen.contains(key.as_str()) {
            return MessagePlan::Skip;
        }
        if product {
            return MessagePlan::Unsupported { key, product: true };
        }
        let id_ref: Option<&str> = match &id_text {
            Some(id) => Some(id.as_str()),
            None => None,
        };
        assert(opt_str(id_ref) == message_id(m));
        let urls = sticker_download_urls(content, id_ref, skey);
        if urls.len() == 0 {
            return MessagePlan::Unsupported { key, product: false };
        }
        let img_status: i64 = match get_i64(message, "ImgStatus") {
            Some(t) => t,
            None => 0,
        };
        let has_product_id: i64 = match get_i64(message, "HasProductId") {
            Some(t) => t,
            None => 0,
        };
        MessagePlan::Download { key, urls, md5, msg_type, img_status, has_product_id }
    }

    /// Counts a sticker that cannot be imported and remembers it; the first
    /// album or store sticker of a round brings the tip.
    pub fn record_unsupported(&mut self, tally: &mut ImportTally, key: String, product: bool)
        requires
            old(tally).unsupported < usize::MAX,
        ensures
            final(self).seen_keys() == old(self).seen_keys().insert(key@),
            final(self).current() == old(self).current(),
            final(self).is_restoring() == old(self).is_restoring(),
            final(tally).imported == old(tally).imported,
            final(tally).skipped == old(tally).skipped,
            final(tally).unsupported == old(tally).unsupported + 1,
            final(tally).latest == old(tally).latest,
            (product && old(tally).warning is None) ==> (final(tally).warning matches Some(w) && w@ == product_sticker_tip()),
            !(product && old(tally).warning is None) ==> final(tally).warning == old(tally).warning,
    {
        self.seen.insert(key);
        tally.unsupported = tally.unsupported + 1;
        if product && tally.warning.is_none() {
            tally.warning = Some(owned("这是微信专辑或表情商店表情。微信网页版只返回占位消息，没有提供图片链接，因此无法自动迁移。请在手机端截图或保存为普通图片，发送到飞书后点击“＋ 添加表情”；动态表情需要先转换为 GIF。"));
        }
    }

    /// Counts the outcome of a download: a new sticker is imported, one
    /// already in the library is skipped, and both are remembered; a failed
    /// one is counted unsupported and left to be tried again, and the first
    /// failure of a round brings its diagnostic.
    pub fn record_download(
        &mut self,
        tally: &mut ImportTally,
        key: String,
        result: Option<AddResult>,
        diagnostic: Option<String>,
        msg_type: i64,
        img_status: i64,
        has_product_id: i64,
    )
        requires
            old(tally).imported < usize::MAX,
            old(tally).skipped < usize::MAX,
            old(tally).unsupported < usize::MAX,
        ensures
            final(self).current() == old(self).current(),
            final(self).is_restoring() == old(self).is_restoring(),
            match result {
                Some(AddResult { added: true, record: Some(rec) }) => {
                    &&& final(tally).imported == old(tally).imported + 1
                    &&& final(tally).skipped == old(tally).skipped
                    &&& final(tally).unsupported == old(tally).unsupported
                    &&& final(tally).latest == Some(rec)
                    &&& final(tally).warning == old(tally).warning
                    &&& final(self).seen_keys() == old(self).seen_keys().insert(key@)
                },
                Some(AddResult { added: false, record: Some(_) }) => {
                    &&& final(tally).imported == old(tally).imported
                    &&& final(tally).skipped == old(tally).skipped + 1
                    &&& final(tally).unsupported == old(tally).unsupported
                    &&& final(tally).latest == old(tally).latest
                    &&& final(tally).warning == old(tally).warning
                    &&& final(self).seen_keys() == old(self).seen_keys().insert(key@)
                },
                _ => {
                    &&& final(tally).imported == old(tally).imported
                    &&& final(tally).skipped == old(tally).skipped
                    &&& final(tally).unsupported == old(tally).unsupported + 1
                    &&& final(tally).latest == old(tally).latest
                    &&& final(self).seen_keys() == old(self).seen_keys()
                    &&& old(tally).warning is Some ==> final(tally).warning == old(tally).warning
                    &&& old(tally).warning is None ==> opt_text(final(tally).warning) == match diagnostic {
                        Some(d) => Some(download_failure_text(msg_type, img_status, has_product_id, d@)),
                        None => None,
                    }
                },
            },
    {
        match result {
            Some(AddResult { added: true, record: Some(rec) }) => {
                tally.imported = tally.imported + 1;
                tally.latest = Some(rec);
                self.seen.insert(key);
            },
            Some(AddResult { added: false, record: Some(_) }) => {
                tally.skipped = tally.skipped + 1;
                self.seen.insert(key);
            },
            _ => {
                tally.unsupported = tally.unsupported + 1;
                if tally.warning.is_none() {
                    tally.warning = match diagnostic {
                        Some(d) => Some(download_failure_warning(msg_type, img_status, has_product_id, d.as_str())),
                        None => None,
                    };
                }
            },
        }
    }
}

/// Law: once a sticker message has been handled (planned for download or
/// counted unsupported) and its key remembered, the same message is
/// skipped: a sticker is imported at most once per session.
pub proof fn law_handled_once(seen: Set<Seq<char>>, m: JsonValue, skey: Seq<char>, first: MessagePlan, again: MessagePlan)
    requires
        plan_holds(first, seen, m, skey),
        !(first is Skip),
        plan_holds(again, seen.insert(message_key(m)), m, skey),
    ensures
        again is Skip,
{
}


// ------------------------------------------------------------------
// Downloading one sticker
// ------------------------------------------------------------------

/// How a download request failed.
#[derive(Debug, Clone, Copy, PartialEq, Eq, Structural)]
pub enum HttpFailure {
    /// An answer with a status other than success.
    Status(u16),
    /// No answer in time.
    Timeout,
    /// No answer for another reason.
    Failed,
}

/// The diagnostic for a failed request to `source`.
pub open spec fn http_failure_text(source: Seq<char>, failure: HttpFailure) -> Seq<char> {
    match failure {
        HttpFailure::Status(code) => source + "返回 HTTP "@ + decimal(code as nat),
        HttpFailure::Timeout => source + "请求超时"@,
        HttpFailure::Failed => source + "请求失败"@,
    }
}

/// The diagnostic for an answer from `source` that is not an image.
pub open spec fn not_image_text(source: Seq<char>, content_type: Option<Seq<char>>, len: nat) -> Seq<char> {
    source + "返回非图片内容（"@ + (match content_type {
        Some(t) => t,
        None => "未知类型"@,
    }) + "，"@ + decimal(len) + " 字节）"@
}

/// The tries to download one sticker, URL after URL, and what went wrong
/// with each.
pub struct StickerDownload {
    urls: Vec<String>,
    next: usize,
    diagnostics: Vec<String>,
}

impl StickerDownload {
    /// The URLs to try.
    pub closed spec fn candidates(&self) -> Seq<Seq<char>> {
        texts(self.urls@)
    }

    /// How many URLs were handed out.
    pub closed spec fn tried(&self) -> nat {
        self.next as nat
    }

    /// What went wrong so far, in order.
    pub closed spec fn problems(&self) -> Seq<Seq<char>> {
        texts(self.diagnostics@)
    }

    /// The well-formedness of the tries: no more URLs handed out than there are.
    pub closed spec fn wf(&self) -> bool {
        self.next <= self.urls.len()
    }

    /// Tries for the given URLs, in order.
    pub fn new(urls: Vec<String>) -> (r: Self)
        ensures
            r.wf(),
            r.candidates() == texts(urls@),
            r.tried() == 0,
            r.problems() == Seq::<Seq<char>>::empty(),
    {
        let r = StickerDownload { urls, next: 0, diagnostics: Vec::new() };
        assert(r.problems() =~= Seq::<Seq<char>>::empty());
        r
    }

    /// The next URL to try and the name of its source, if any is left.
    pub fn next_url(&mut self) -> (r: Option<(String, &'static str)>)
        requires
            old(self).wf(),
        ensures
            final(self).wf(),
            final(self).candidates() == old(self).candidates(),
            final(self).problems() == old(self).problems(),
            old(self).tried() < old(self).candidates().len() ==> (r matches Some(p) && {
                &&& p.0@ == old(self).candidates()[old(self).tried() as int]
                &&& p.1@ == download_source_label(p.0@)
                &&& final(self).tried() == old(self).tried() + 1
            }),
            old(self).tried() >= old(self).candidates().len() ==> r is None && final(self).tried() == old(self).tried(),
    {
        if self.next >= self.urls.len() {
            return None;
        }
        let url = self.urls[self.next].clone();
        self.next = self.next + 1;
        let label = sticker_download_source_label(url.as_str());
        Some((url, label))
    }

    /// Notes a diagnostic.
    fn note(&mut self, text: String)
        ensures
            final(self).wf() == old(self).wf(),
            final(self).candidates() == old(self).candidates(),
            final(self).tried() == old(self).tried(),
            final(self).problems() == old(self).problems().push(text@),
    {
        self.diagnostics.push(text);
        assert(texts(self.diagnostics@) =~= texts(old(self).diagnostics@).push(text@));
    }

    /// Notes a request that failed.
    pub fn http_failed(&mut self, source: &str, failure: HttpFailure)
        ensures
            final(self).wf() == old(self).wf(),
            final(self).candidates() == old(self).candidates(),
            final(self).tried() == old(self).tried(),
            final(self).problems() == old(self).problems().push(http_failure_text(source@, failure)),
    {
        let text = match failure {
            HttpFailure::Status(code) => {
                let digits = u64_to_decimal(code as u64);
                surround(source, "返回 HTTP ", digits.as_str())
            },
            HttpFailure::Timeout => concat(source, "请求超时"),
            HttpFailure::Failed => concat(source, "请求失败"),
        };
        self.note(text);
    }

    /// Notes an answer whose body could not be read.
    pub fn read_failed(&mut self, source: &str)
        ensures
            final(self).wf() == old(self).wf(),
            final(self).candidates() == old(self).candidates(),
            final(self).tried() == old(self).tried(),
            final(self).problems() == old(self).problems().push(source@ + "响应读取失败"@),
    {
        self.note(concat(source, "响应读取失败"));
    }

    /// Whether an answer is an image the library knows; when it is not,
    /// notes what came instead.
    pub fn check_image(&mut self, source: &str, bytes: &[u8], content_type: Option<&str>) -> (r: bool)
        ensures
            final(self).wf() == old(self).wf(),
            final(self).candidates() == old(self).candidates(),
            final(self).tried() == old(self).tried(),
            r == sniffed_mime(bytes@) is Some,
            r ==> final(self).problems() == old(self).problems(),
            !r ==> final(self).problems() == old(self).problems().push(
                not_image_text(source@, opt_str(content_type), bytes@.len()),
            ),
    {
        if sniff_image_mime(bytes).is_some() {
            return true;
        }
        let kind: &str = match content_type {
            Some(t) => t,
            None => "未知类型",
        };
        let count = u64_to_decimal(bytes.len() as u64);
        let a = surround(source, "返回非图片内容（", kind);
        let b = surround(a.as_str(), "，", count.as_str());
        let text = concat(b.as_str(), " 字节）");
        self.note(text);
        false
    }

    /// The outcome of offering the image to the library: a result with a
    /// record ends the tries; one without is noted.
    pub fn stored(&mut self, source: &str, result: AddResult) -> (r: Option<AddResult>)
        ensures
            final(self).wf() == old(self).wf(),
            final(self).candidates() == old(self).candidates(),
            final(self).tried() == old(self).tried(),
            result.record is Some ==> r == Some(result) && final(self).problems() == old(self).problems(),
            result.record is None ==> r is None && final(self).problems() == old(self).problems().push(
                source@ + "图片无法写入本地表情库"@,
            ),
    {
        if result.record.is_some() {
            return Some(result);
        }
        self.note(concat(source, "图片无法写入本地表情库"));
        None
    }

    /// What went wrong, joined; none when nothing did.
    pub fn diagnostic(&self) -> (r: Option<String>)
        ensures
            self.problems().len() == 0 ==> r is None,
            self.problems().len() > 0 ==> (r matches Some(t) && t@ == join_with(self.problems(), "；"@)),
    {
        if self.diagnostics.len() == 0 {
            None
        } else {
            Some(join_texts(&self.diagnostics, "；"))
        }
    }
}

// ------------------------------------------------------------------
// Warnings, the scanner loop and restoring
// ------------------------------------------------------------------

/// The event that carries a session warning alone.
pub fn session_warning_event(message: String) -> (r: StickerImportEvent)
    ensures
        r.imported == 0 && r.skipped == 0 && r.unsupported == 0 && r.latest is None,
        r.warning == Some(message),
{
    StickerImportEvent { imported: 0, skipped: 0, unsupported: 0, latest: None, warning: Some(message) }
}

/// The failures of local bookkeeping that are reported as warnings.
#[derive(Debug, Clone, Copy, PartialEq, Eq, Structural)]
pub enum WarningKind {
    /// Saving the session during scanning failed.
    SaveFailed,
    /// Clearing an expired session failed.
    ClearFailed,
    /// Saving a freshly confirmed login failed.
    LoginSaveFailed,
    /// Saving a session after a successful restore failed.
    RestoreSaveFailed,
}

/// The text of a warning about a failure of local bookkeeping.
pub open spec fn warning_text_spec(kind: WarningKind, error: Seq<char>) -> Seq<char> {
    match kind {
        WarningKind::SaveFailed => "保存微信登录状态失败："@ + error,
        WarningKind::ClearFailed => "清理失效登录状态失败："@ + error,
        WarningKind::LoginSaveFailed => "微信已连接，但登录状态保存失败："@ + error,
        WarningKind::RestoreSaveFailed => "恢复成功，但刷新登录状态失败："@ + error,
    }
}

/// The text of a warning about a failure of local bookkeeping.
pub fn warning_text(kind: WarningKind, error: &str) -> (r: String)
    ensures
        r@ == warning_text_spec(kind, error@),
{
    match kind {
        WarningKind::SaveFailed => concat("保存微信登录状态失败：", error),
        WarningKind::ClearFailed => concat("清理失效登录状态失败：", error),
        WarningKind::LoginSaveFailed => concat("微信已连接，但登录状态保存失败：", error),
        WarningKind::RestoreSaveFailed => concat("恢复成功，但刷新登录状态失败：", error),
    }
}

/// How long the scanner waits between two saves of the session, and
/// between two warnings about failing rounds, in milliseconds.
pub const SESSION_SAVE_INTERVAL_MS: u64 = 30000;

/// How long the scanner pauses between two rounds, in milliseconds.
pub const SCAN_PAUSE_MS: u64 = 1500;

/// What the scanner does after one round.
#[derive(Debug)]
pub struct ScannerAction {
    /// Save the session now.
    pub persist: bool,
    /// Clear the session, the handled stickers and the saved file.
    pub reset: bool,
    /// The warning to show, if any.
    pub warning: Option<String>,
    /// Stop scanning.
    pub stop: bool,
}

/// The warning for a session that the server ended.
pub open spec fn expired_text(ret: i64) -> Seq<char> {
    "微信登录已失效（"@ + signed_decimal(ret as int) + "），请重新扫码。"@
}

/// The scanner's decision after one round: an active session is saved
/// every `SESSION_SAVE_INTERVAL_MS`; an expired one is cleared with a
/// warning and scanning stops; a failed round is reported at most once
/// per interval. Times are the milliseconds since the last save and since
/// the last warning (none before the first).
pub fn scanner_step(outcome: &Result<ScanOutcome, String>, since_persist_ms: u64, since_warning_ms: Option<u64>) -> (r: ScannerAction)
    ensures
        match outcome {
            Ok(ScanOutcome::Active) => !r.reset && !r.stop && r.warning is None
                && r.persist == (since_persist_ms >= SESSION_SAVE_INTERVAL_MS),
            Ok(ScanOutcome::SessionExpired(ret)) => r.reset && r.stop && !r.persist
                && (r.warning matches Some(w) && w@ == expired_text(*ret)),
            Err(e) => !r.reset && !r.stop && !r.persist && match since_warning_ms {
                Some(t) if t < SESSION_SAVE_INTERVAL_MS => r.warning is None,
                _ => r.warning == Some(*e),
            },
        },
{
    match outcome {
        Ok(ScanOutcome::Active) => ScannerAction {
            persist: since_persist_ms >= SESSION_SAVE_INTERVAL_MS,
            reset: false,
            warning: None,
            stop: false,
        },
        Ok(ScanOutcome::SessionExpired(ret)) => {
            let digits = i64_to_decimal(*ret);
            let text = surround("微信登录已失效（", digits.as_str(), "），请重新扫码。");
            ScannerAction { persist: false, reset: true, warning: Some(text), stop: true }
        },
        Err(e) => {
            let warn = match since_warning_ms {
                Some(t) => t >= SESSION_SAVE_INTERVAL_MS,
                None => true,
            };
            ScannerAction {
                persist: false,
                reset: false,
                warning: if warn { Some(e.clone()) } else { None },
                stop: false,
            }
        },
    }
}

/// What follows the check of a restored session.
#[derive(Debug)]
pub struct RestoreAction {
    /// Start the scanner.
    pub start_scanner: bool,
    /// Save the session now.
    pub persist: bool,
    /// Clear the saved file and the HTTP state.
    pub reset: bool,
    /// The warning to show, if any.
    pub warning: Option<String>,
}

impl WechatCollector {
    /// Starts the check of a restored session; without one there is nothing
    /// to check and the collector stops restoring.
    pub fn begin_restore(&mut self) -> (r: bool)
        ensures
            r == (old(self).current() is Some),
            final(self).current() == old(self).current(),
            final(self).seen_keys() == old(self).seen_keys(),
            final(self).is_restoring() == (old(self).is_restoring() && r),
    {
        if self.session.is_none() {
            self.restoring = false;
            return false;
        }
        true
    }

    /// Ends the check of a restored session with the outcome of its first
    /// synchronisation round.
    pub fn finish_restore(&mut self, outcome: &Result<ScanOutcome, String>) -> (r: RestoreAction)
        ensures
            !final(self).is_restoring(),
            match outcome {
                Ok(ScanOutcome::Active) => {
                    &&& r.start_scanner && r.persist && !r.reset && r.warning is None
                    &&& final(self).current() == old(self).current()
                    &&& final(self).seen_keys() == old(self).seen_keys()
                },
                Ok(ScanOutcome::SessionExpired(_)) => {
                    &&& !r.start_scanner && !r.persist && r.reset
                    &&& r.warning matches Some(w) && w@ == "保存的微信登录已失效，请重新扫码。"@
                    &&& final(self).current() is None
                    &&& final(self).seen_keys() == Set::<Seq<char>>::empty()
                },
                Err(e) => {
                    &&& r.start_scanner && !r.persist && !r.reset
                    &&& r.warning matches Some(w) && w@ == "已恢复微信登录，暂时无法校验连接："@ + e@
                    &&& final(self).current() == old(self).current()
                    &&& final(self).seen_keys() == old(self).seen_keys()
                },
            },
    {
        match outcome {
            Ok(ScanOutcome::Active) => {
                self.restoring = false;
                RestoreAction { start_scanner: true, persist: true, reset: false, warning: None }
            },
            Ok(ScanOutcome::SessionExpired(_)) => {
                self.reset();
                RestoreAction {
                    start_scanner: false,
                    persist: false,
                    reset: true,
                    warning: Some(owned("保存的微信登录已失效，请重新扫码。")),
                }
            },
            Err(e) => {
                self.restoring = false;
                RestoreAction {
                    start_scanner: true,
                    persist: false,
                    reset: false,
                    warning: Some(concat("已恢复微信登录，暂时无法校验连接：", e.as_str())),
                }
            },
        }
    }
}

} // verus!
