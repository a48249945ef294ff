//! What a TikTok Shop product page says about the product: Open Graph tags,
//! the page title, the product id in the final URL, JSON-LD, and the page's
//! product model (gallery, videos, description); and how a fetch is answered.
use vstd::prelude::*;
use crate::json::{get, jget, jview, oview, JsonValue, JsonView};
use crate::product_html::{
    attr_get, element_text, find_element_text, find_script_text_by_type, find_tags, get_attr, html_unescape,
    html_unescape_basic, pairs_view, parse_attrs, scripts, tag_attrs, tags, texts_view,
};
use crate::product_json::{
    best_model_from, description_from_product_model, description_spec, find_product_model_in_loader, gallery,
    gallery_image_urls_from_product_model, get_str, ld_image, ld_image_exec, ld_product, ld_product_from,
    parse_product_model_root, str_or_text, str_or_text_exec, strings_view, video_urls_from_product_model_videos,
    videos, loader_model,
};
use crate::session::{opt_seq, opt_str_seq};
use crate::text::{
    append_chars, append_str, chars_eq_str, collapse, collapse_chars, contains, contains_str,
    count_leading_digits, ends_with, ends_with_str, find, find_str, is_alnum, leading_digits,
    lemma_find_from_bounds, lower, lower_chars, slice_chars, starts_with, starts_with_str, str_chars,
    string_from, trim, trim_chars,
};

verus! {

// ---------------------------------------------------------------------------
// Open Graph tags
// ---------------------------------------------------------------------------
/// The `og:` property a meta tag carries for `key`: its `property` starts
/// with `og:` and the rest, lowercased, is `key`, and it has a `content`.
pub open spec fn og_hit(tag: Seq<char>, key: Seq<char>) -> bool {
    let attrs = tag_attrs(tag);
    match attr_get(attrs, "property"@) {
        Some(p) => starts_with(p, "og:"@) && lower(p.subrange(3, p.len() as int)) == key
            && attr_get(attrs, "content"@) is Some,
        None => false,
    }
}

/// The unescaped content of the first meta tag for `og:key` (the first one wins).
pub open spec fn og_from(metas: Seq<Seq<char>>, key: Seq<char>) -> Option<Seq<char>>
    decreases metas.len(),
{
    if metas.len() == 0 {
        None
    } else if og_hit(metas[0], key) {
        Some(html_unescape(attr_get(tag_attrs(metas[0]), "content"@)->Some_0))
    } else {
        og_from(metas.drop_first(), key)
    }
}

pub open spec fn og_tag(h: Seq<char>, key: Seq<char>) -> Option<Seq<char>> {
    og_from(tags(h, "meta"@), key)
}

/// The page's Open Graph value for `key` (`title`, `description`, `image`).
pub fn og_content(html: &[char], key: &str) -> (r: Option<Vec<char>>)
    ensures
        match r {
            Some(v) => og_tag(html@, key@) == Some(v@),
            None => og_tag(html@, key@) is None,
        },
{
    let metas = find_tags(html, "meta");
    let ghost all = texts_view(metas@);
    let kc = str_chars(key);
    let mut i: usize = 0;
    proof {
        assert(all.subrange(0, all.len() as int) =~= all);
        reveal_strlit("og:");
    }
    while i < metas.len()
        invariant
            all == texts_view(metas@),
            all == tags(html@, "meta"@),
            kc@ == key@,
            i <= metas@.len(),
            og_tag(html@, key@) == og_from(all.subrange(i as int, all.len() as int), key@),
        decreases metas@.len() - i,
    {
        let ghost rest = all.subrange(i as int, all.len() as int);
        proof {
            reveal_strlit("og:");
        }
        assert(rest[0] == metas@[i as int]@);
        assert(rest.drop_first() =~= all.subrange(i + 1, all.len() as int));
        let attrs = parse_attrs(metas[i].as_slice());
        let hit_content = match get_attr(&attrs, "property") {
            Some(p) => {
                if starts_with_str(p.as_slice(), "og:") {
                    let rest_p = slice_chars(p.as_slice(), 3, p.len());
                    let lp = lower_chars(rest_p.as_slice());
                    if crate::text::chars_eq(lp.as_slice(), kc.as_slice()) {
                        get_attr(&attrs, "content")
                    } else {
                        None
                    }
                } else {
                    None
                }
            },
            None => None,
        };
        match hit_content {
            Some(c) => {
                return Some(html_unescape_basic(c.as_slice()));
            },
            None => {},
        }
        i = i + 1;
    }
    None
}

// ---------------------------------------------------------------------------
// The page title
// ---------------------------------------------------------------------------
/// `t` without `suffix` (then trimmed) when it ends with it.
pub open spec fn cut_suffix(t: Seq<char>, suffix: Seq<char>) -> Seq<char> {
    if ends_with(t, suffix) {
        trim(t.subrange(0, t.len() - suffix.len()))
    } else {
        t
    }
}

/// The shop suffixes taken off a page title, in this order.
pub open spec fn strip_shop_suffixes(t: Seq<char>) -> Seq<char> {
    cut_suffix(
        cut_suffix(cut_suffix(cut_suffix(t, " - TikTok Shop Vietnam"@), " - TikTok Shop"@), " | TikTok Shop"@),
        " - TikTok"@,
    )
}

/// The product name a page's `<title>` gives.
pub open spec fn title_name(h: Seq<char>) -> Option<Seq<char>> {
    match element_text(h, "title"@) {
        None => None,
        Some(raw) => {
            let t = strip_shop_suffixes(collapse(raw));
            if t.len() == 0 {
                None
            } else {
                Some(t)
            }
        },
    }
}

fn cut_suffix_exec(t: Vec<char>, suffix: &str) -> (r: Vec<char>)
    ensures
        r@ == cut_suffix(t@, suffix@),
{
    if ends_with_str(t.as_slice(), suffix) {
        let sc = str_chars(suffix);
        let head = slice_chars(t.as_slice(), 0, t.len() - sc.len());
        trim_chars(head.as_slice())
    } else {
        t
    }
}

/// The `<title>` text, whitespace collapsed and shop suffixes removed, if any is left.
pub fn title_tag_product_name(html: &[char]) -> (r: Option<Vec<char>>)
    ensures
        match r {
            Some(t) => title_name(html@) == Some(t@),
            None => title_name(html@) is None,
        },
{
    let raw = match find_element_text(html, "title") {
        Some(raw) => raw,
        None => return None,
    };
    let t0 = collapse_chars(raw.as_slice());
    let t1 = cut_suffix_exec(t0, " - TikTok Shop Vietnam");
    let t2 = cut_suffix_exec(t1, " - TikTok Shop");
    let t3 = cut_suffix_exec(t2, " | TikTok Shop");
    let t4 = cut_suffix_exec(t3, " - TikTok");
    if t4.len() == 0 {
        None
    } else {
        Some(t4)
    }
}

// ---------------------------------------------------------------------------
// The product id, the security page, media file extensions
// ---------------------------------------------------------------------------
/// The digits right after the first `/view/product/` of the final URL.
pub open spec fn product_id_spec(u: Seq<char>) -> Option<Seq<char>> {
    match find(u, "/view/product/"@) {
        None => None,
        Some(i) => {
            let d = leading_digits(u.subrange(i + "/view/product/"@.len(), u.len() as int));
            if d.len() == 0 {
                None
            } else {
                Some(d)
            }
        },
    }
}

/// The product id in a shop URL (`…/view/product/<digits>`).
pub fn product_id_from_final_url(final_url: &str) -> (r: Option<String>)
    ensures
        crate::session::opt_seq(r) == product_id_spec(final_url@),
{
    let u = str_chars(final_url);
    let i = match find_str(u.as_slice(), "/view/product/") {
        None => return None,
        Some(i) => i,
    };
    proof {
        lemma_find_from_bounds(u@, "/view/product/"@, 0);
        reveal_strlit("/view/product/");
    }
    let ulen = u.len();
    assert(i + 14 <= ulen);
    let start = i + 14;
    let n = count_leading_digits(u.as_slice(), start);
    if n == 0 {
        None
    } else {
        Some(string_from(slice_chars(u.as_slice(), start, start + n).as_slice()))
    }
}

/// The page is a security check or a captcha rather than the product.
pub open spec fn security_challenge(h: Seq<char>) -> bool {
    let l = lower(h);
    contains(l, "security check"@) || contains(l, "captcha_container"@) || contains(l, "wafchallenge"@)
        || contains(l, "please wait"@)
}

pub fn html_suggests_security_challenge(html: &[char]) -> (r: bool)
    ensures
        r == security_challenge(html@),
{
    let l = lower_chars(html);
    contains_str(l.as_slice(), "security check") || contains_str(l.as_slice(), "captcha_container")
        || contains_str(l.as_slice(), "wafchallenge") || contains_str(l.as_slice(), "please wait")
}

/// Index of the last `c` in `s`, if any.
pub open spec fn last_index(s: Seq<char>, c: char) -> Option<int>
    decreases s.len(),
{
    if s.len() == 0 {
        None
    } else if s.last() == c {
        Some(s.len() - 1)
    } else {
        last_index(s.drop_last(), c)
    }
}

proof fn lemma_last_index(s: Seq<char>, c: char)
    ensures
        last_index(s, c) matches Some(k) ==> 0 <= k < s.len() && s[k] == c,
        last_index(s, c) is None ==> forall|j: int| 0 <= j < s.len() ==> s[j] != c,
    decreases s.len(),
{
    if s.len() > 0 && s.last() != c {
        lemma_last_index(s.drop_last(), c);
        assert forall|j: int| 0 <= j < s.drop_last().len() implies s.drop_last()[j] == s[j] by {}
    }
}

/// Index of the first `c` in `s`, if any.
pub open spec fn first_index(s: Seq<char>, c: char) -> Option<int>
    decreases s.len(),
{
    if s.len() == 0 {
        None
    } else if s[0] == c {
        Some(0)
    } else {
        match first_index(s.drop_first(), c) {
            Some(k) => Some(k + 1),
            None => None,
        }
    }
}

proof fn lemma_first_index(s: Seq<char>, c: char)
    ensures
        first_index(s, c) matches Some(k) ==> 0 <= k < s.len() && s[k] == c,
    decreases s.len(),
{
    if s.len() > 0 && s[0] != c {
        lemma_first_index(s.drop_first(), c);
    }
}

fn last_index_exec(s: &[char], c: char) -> (r: Option<usize>)
    ensures
        match r {
            Some(k) => last_index(s@, c) == Some(k as int),
            None => last_index(s@, c) is None,
        },
{
    let mut i: usize = s.len();
    proof {
        assert(s@.subrange(0, s@.len() as int) =~= s@);
    }
    while i > 0
        invariant
            i <= s@.len(),
            last_index(s@, c) == last_index(s@.subrange(0, i as int), c),
        decreases i,
    {
        assert(s@.subrange(0, i as int).last() == s@[i - 1]);
        if s[i - 1] == c {
            return Some(i - 1);
        }
        assert(s@.subrange(0, i as int).drop_last() =~= s@.subrange(0, i - 1));
        i = i - 1;
    }
    None
}

fn first_index_exec(s: &[char], c: char) -> (r: Option<usize>)
    ensures
        match r {
            Some(k) => first_index(s@, c) == Some(k as int),
            None => first_index(s@, c) is None,
        },
{
    let mut i: usize = 0;
    while i < s.len()
        invariant
            i <= s@.len(),
            forall|j: int| 0 <= j < i ==> s@[j] != c,
        decreases s@.len() - i,
    {
        if s[i] == c {
            proof {
                lemma_first_index_at(s@, c, i as int);
            }
            return Some(i);
        }
        i = i + 1;
    }
    proof {
        lemma_first_index_none(s@, c);
    }
    None
}

proof fn lemma_first_index_at(s: Seq<char>, c: char, i: int)
    requires
        0 <= i < s.len(),
        s[i] == c,
        forall|j: int| 0 <= j < i ==> s[j] != c,
    ensures
        first_index(s, c) == Some(i),
    decreases i,
{
    if i > 0 {
        lemma_first_index_at(s.drop_first(), c, i - 1);
    }
}

proof fn lemma_first_index_none(s: Seq<char>, c: char)
    requires
        forall|j: int| 0 <= j < s.len() ==> s[j] != c,
    ensures
        first_index(s, c) is None,
    decreases s.len(),
{
    if s.len() > 0 {
        lemma_first_index_none(s.drop_first(), c);
    }
}

/// The last path segment of a URL, its query cut off.
pub open spec fn url_file_segment(url: Seq<char>) -> Seq<char> {
    let path = match first_index(url, '?') {
        Some(q) => url.subrange(0, q),
        None => url,
    };
    match last_index(path, '/') {
        Some(k) => path.subrange(k + 1, path.len() as int),
        None => path,
    }
}

/// The extension of the segment after its last `.`, when it is one to seven
/// ASCII letters or digits.
pub open spec fn url_extension(url: Seq<char>) -> Option<Seq<char>> {
    let seg = url_file_segment(url);
    match last_index(seg, '.') {
        None => None,
        Some(d) => {
            let ext = seg.subrange(d + 1, seg.len() as int);
            if 1 <= ext.len() <= 7 && (forall|j: int| 0 <= j < ext.len() ==> is_alnum(ext[j])) {
                Some(ext)
            } else {
                None
            }
        },
    }
}

/// The extension a downloaded media file is saved with: the URL's own, else
/// one the content type names, else `.mp4` for a video and `.jpg` otherwise.
pub open spec fn media_extension(url: Seq<char>, content_type: Option<Seq<char>>, kind: Seq<char>) -> Seq<char> {
    match url_extension(url) {
        Some(ext) => "."@ + lower(ext),
        None => {
            let ct = match content_type {
                Some(c) => c,
                None => Seq::empty(),
            };
            if contains(ct, "jpeg"@) || contains(ct, "jpg"@) {
                ".jpg"@
            } else if contains(ct, "png"@) {
                ".png"@
            } else if contains(ct, "webp"@) {
                ".webp"@
            } else if contains(ct, "mp4"@) {
                ".mp4"@
            } else if contains(ct, "mpegurl"@) || contains(ct, "m3u8"@) {
                ".m3u8"@
            } else if kind == "video"@ {
                ".mp4"@
            } else {
                ".jpg"@
            }
        },
    }
}

/// The extension for a downloaded media file.
pub fn file_extension(url: &str, content_type: Option<&str>, kind: &str) -> (r: String)
    ensures
        r@ == media_extension(url@, crate::session::opt_str_seq(content_type), kind@),
{
    let u = str_chars(url);
    let path = match first_index_exec(u.as_slice(), '?') {
        Some(q) => {
            proof {
                lemma_first_index(u@, '?');
            }
            slice_chars(u.as_slice(), 0, q)
        },
        None => u,
    };
    let seg = match last_index_exec(path.as_slice(), '/') {
        Some(k) => {
            proof {
                lemma_last_index(path@, '/');
            }
            slice_chars(path.as_slice(), k + 1, path.len())
        },
        None => path,
    };
    proof {
        assert(seg@ == url_file_segment(url@));
    }
    match last_index_exec(seg.as_slice(), '.') {
        None => {},
        Some(d) => {
            proof {
                lemma_last_index(seg@, '.');
            }
            let ext = slice_chars(seg.as_slice(), d + 1, seg.len());
            if 1 <= ext.len() && ext.len() <= 7 && all_alnum(ext.as_slice()) {
                let mut out: Vec<char> = Vec::new();
                append_str(&mut out, ".");
                let l = lower_chars(ext.as_slice());
                append_chars(&mut out, l.as_slice());
                return string_from(out.as_slice());
            }
        },
    }
    let ct = match content_type {
        Some(c) => str_chars(c),
        None => Vec::new(),
    };
    proof {
        if content_type is None {
            assert(ct@ =~= Seq::<char>::empty());
        }
    }
    let c = ct.as_slice();
    if contains_str(c, "jpeg") || contains_str(c, "jpg") {
        crate::text::string_of(".jpg")
    } else if contains_str(c, "png") {
        crate::text::string_of(".png")
    } else if contains_str(c, "webp") {
        crate::text::string_of(".webp")
    } else if contains_str(c, "mp4") {
        crate::text::string_of(".mp4")
    } else if contains_str(c, "mpegurl") || contains_str(c, "m3u8") {
        crate::text::string_of(".m3u8")
    } else if crate::text::str_eq(kind, "video") {
        crate::text::string_of(".mp4")
    } else {
        crate::text::string_of(".jpg")
    }
}

fn all_alnum(s: &[char]) -> (r: bool)
    ensures
        r == (forall|j: int| 0 <= j < s@.len() ==> is_alnum(s@[j])),
{
    let mut i: usize = 0;
    while i < s.len()
        invariant
            i <= s@.len(),
            forall|j: int| 0 <= j < i ==> is_alnum(s@[j]),
        decreases s@.len() - i,
    {
        if !crate::text::char_is_alnum(s[i]) {
            return false;
        }
        i = i + 1;
    }
    true
}

// ---------------------------------------------------------------------------
// The product a page describes
// ---------------------------------------------------------------------------
/// A media file saved from a product page.
#[derive(Debug, Clone, PartialEq, Eq)]
pub struct FetchedProductMediaFile {
    pub kind: String,
    pub path: String,
    pub source_url: String,
}

/// What a product page says. The price is kept as the text of its JSON-LD
/// value (a string's content, else the number's JSON text).
#[derive(Debug)]
pub struct ProductPageData {
    pub name: Option<String>,
    pub description: Option<String>,
    pub price_text: Option<String>,
    pub image_url: Option<String>,
    pub category: Option<String>,
    pub tiktok_shop_id: Option<String>,
    pub image_urls: Vec<String>,
    pub video_urls: Vec<String>,
    pub media_files: Vec<FetchedProductMediaFile>,
}

pub open spec fn or_opt(a: Option<Seq<char>>, b: Option<Seq<char>>) -> Option<Seq<char>> {
    match a {
        Some(x) => Some(x),
        None => b,
    }
}

/// The JSON-LD product of a page, if any.
pub open spec fn page_ld(h: Seq<char>) -> Option<JsonView> {
    ld_product_from(scripts(h, "application/ld+json"@))
}

/// A string member of the JSON-LD product.
pub open spec fn ld_str(h: Seq<char>, key: Seq<char>) -> Option<Seq<char>> {
    match page_ld(h) {
        Some(p) => crate::json::ostr(jget(p, key)),
        None => None,
    }
}

/// The product model of a page, if any.
pub open spec fn page_model(h: Seq<char>) -> Option<JsonView> {
    best_model_from(scripts(h, "application/json"@), None, 0)
}

pub open spec fn page_name(h: Seq<char>) -> Option<Seq<char>> {
    or_opt(or_opt(og_tag(h, "title"@), title_name(h)), ld_str(h, "name"@))
}

pub open spec fn page_description(h: Seq<char>) -> Option<Seq<char>> {
    let base = or_opt(og_tag(h, "description"@), ld_str(h, "description"@));
    match page_model(h) {
        Some(m) => or_opt(description_spec(m), base),
        None => base,
    }
}

pub open spec fn page_image_url(h: Seq<char>) -> Option<Seq<char>> {
    or_opt(
        og_tag(h, "image"@),
        match page_ld(h) {
            Some(p) => ld_image(p),
            None => None,
        },
    )
}

pub open spec fn page_price_text(h: Seq<char>) -> Option<Seq<char>> {
    match page_ld(h) {
        Some(p) => match crate::json::oget(jget(p, "offers"@), "price"@) {
            Some(v) => Some(str_or_text(v)),
            None => None,
        },
        None => None,
    }
}

pub open spec fn page_shop_id(h: Seq<char>, final_url: Seq<char>) -> Option<Seq<char>> {
    or_opt(
        product_id_spec(final_url),
        match page_ld(h) {
            Some(p) => match jget(p, "sku"@) {
                Some(v) => Some(str_or_text(v)),
                None => None,
            },
            None => None,
        },
    )
}

pub open spec fn page_image_urls(h: Seq<char>) -> Seq<Seq<char>> {
    match page_model(h) {
        Some(m) => gallery(m),
        None => match page_image_url(h) {
            Some(u) => if starts_with(u, "http"@) {
                seq![u]
            } else {
                Seq::empty()
            },
            None => Seq::empty(),
        },
    }
}

pub open spec fn page_video_urls(h: Seq<char>) -> Seq<Seq<char>> {
    match page_model(h) {
        Some(m) => videos(jget(m, "videos"@), 8),
        None => Seq::empty(),
    }
}

/// `data` is what the page `h`, reached at `final_url`, says.
pub open spec fn reads_page(data: ProductPageData, h: Seq<char>, final_url: Seq<char>) -> bool {
    &&& opt_seq(data.name) == page_name(h)
    &&& opt_seq(data.description) == page_description(h)
    &&& opt_seq(data.price_text) == page_price_text(h)
    &&& opt_seq(data.image_url) == page_image_url(h)
    &&& opt_seq(data.category) == ld_str(h, "category"@)
    &&& opt_seq(data.tiktok_shop_id) == page_shop_id(h, final_url)
    &&& strings_view(data.image_urls@) == page_image_urls(h)
    &&& strings_view(data.video_urls@) == page_video_urls(h)
    &&& data.media_files@.len() == 0
}

fn vec_to_string_opt(v: Option<Vec<char>>) -> (r: Option<String>)
    ensures
        opt_seq(r) == match v {
            Some(x) => Some(x@),
            None => None::<Seq<char>>,
        },
{
    match v {
        Some(x) => Some(string_from(x.as_slice())),
        None => None,
    }
}

/// Everything a product page says about the product: Open Graph tags, the
/// title, the JSON-LD product, and the page's product model.
pub fn parse_product_html(html: &str, final_url: &str) -> (r: ProductPageData)
    ensures
        reads_page(r, html@, final_url@),
{
    let h = str_chars(html);
    let hs = h.as_slice();
    let mut name = vec_to_string_opt(og_content(hs, "title"));
    let mut description = vec_to_string_opt(og_content(hs, "description"));
    let mut image_url = vec_to_string_opt(og_content(hs, "image"));
    let mut tiktok_shop_id = product_id_from_final_url(final_url);
    let mut category: Option<String> = None;
    let mut price_text: Option<String> = None;
    if name.is_none() {
        name = vec_to_string_opt(title_tag_product_name(hs));
    }
    let ld_scripts = find_script_text_by_type(hs, "application/ld+json");
    match ld_product(&ld_scripts) {
        Some(p) => {
            if name.is_none() {
                name = get_str(&p, "name");
            }
            if description.is_none() {
                description = get_str(&p, "description");
            }
            if image_url.is_none() {
                image_url = ld_image_exec(&p);
            }
            category = get_str(&p, "category");
            price_text = match get(&p, "offers") {
                Some(o) => match get(o, "price") {
                    Some(v) => Some(str_or_text_exec(v)),
                    None => None,
                },
                None => None,
            };
            if tiktok_shop_id.is_none() {
                tiktok_shop_id = match get(&p, "sku") {
                    Some(v) => Some(str_or_text_exec(v)),
                    None => None,
                };
            }
        },
        None => {},
    }
    let json_scripts = find_script_text_by_type(hs, "application/json");
    let root = parse_product_model_root(&json_scripts);
    let mut image_urls: Vec<String> = Vec::new();
    let mut video_urls: Vec<String> = Vec::new();
    match &root {
        Some(root) => {
            match find_product_model_in_loader(root) {
                Some(m) => {
                    match description_from_product_model(m) {
                        Some(d) => {
                            description = Some(d);
                        },
                        None => {},
                    }
                    image_urls = gallery_image_urls_from_product_model(m);
                    video_urls = video_urls_from_product_model_videos(get(m, "videos"), 8);
                },
                None => {},
            }
        },
        None => {
            match &image_url {
                Some(u) => {
                    let uc = str_chars(u.as_str());
                    if starts_with_str(uc.as_slice(), "http") {
                        image_urls.push(u.clone());
                        proof {
                            assert(strings_view(image_urls@) =~= seq![u@]);
                        }
                    } else {
                        proof {
                            assert(strings_view(image_urls@) =~= Seq::<Seq<char>>::empty());
                        }
                    }
                },
                None => {
                    proof {
                        assert(strings_view(image_urls@) =~= Seq::<Seq<char>>::empty());
                    }
                },
            }
            proof {
                assert(strings_view(video_urls@) =~= Seq::<Seq<char>>::empty());
            }
        },
    }
    ProductPageData {
        name,
        description,
        price_text,
        image_url,
        category,
        tiktok_shop_id,
        image_urls,
        video_urls,
        media_files: Vec::new(),
    }
}

// ---------------------------------------------------------------------------
// Answering a fetch
// ---------------------------------------------------------------------------
/// The answer to a product fetch.
#[derive(Debug)]
pub struct FetchProductResponse {
    pub success: bool,
    pub incomplete: bool,
    pub data: Option<ProductPageData>,
    pub error: Option<String>,
}

/// Nothing known about the product.
pub open spec fn is_empty_data(d: ProductPageData) -> bool {
    &&& d.name is None
    &&& d.description is None
    &&& d.price_text is None
    &&& d.image_url is None
    &&& d.category is None
    &&& d.tiktok_shop_id is None
    &&& d.image_urls@.len() == 0
    &&& d.video_urls@.len() == 0
    &&& d.media_files@.len() == 0
}

/// Every answer to a fetch has this shape: a success carries data with a
/// product name and no error, and is never incomplete; a failure carries an
/// error, and is incomplete whenever it carries data.
pub open spec fn fetch_answer_shape(r: FetchProductResponse) -> bool {
    &&& r.success ==> !r.incomplete && r.error is None && (r.data matches Some(d) && d.name is Some)
    &&& !r.success ==> r.error is Some
    &&& !r.success && r.data is Some ==> r.incomplete
}

pub fn empty_product_data() -> (r: ProductPageData)
    ensures
        is_empty_data(r),
{
    ProductPageData {
        name: None,
        description: None,
        price_text: None,
        image_url: None,
        category: None,
        tiktok_shop_id: None,
        image_urls: Vec::new(),
        video_urls: Vec::new(),
        media_files: Vec::new(),
    }
}

/// An incomplete answer with nothing known and `message` as its error.
pub fn incomplete_response(message: &str) -> (r: FetchProductResponse)
    ensures
        !r.success,
        r.incomplete,
        r.data matches Some(d) && is_empty_data(d),
        opt_seq(r.error) == Some(message@),
        fetch_answer_shape(r),
{
    FetchProductResponse {
        success: false,
        incomplete: true,
        data: Some(empty_product_data()),
        error: Some(crate::text::string_of(message)),
    }
}

/// The trimmed URL to fetch, or the answer to an empty one.
pub fn check_product_url(url: &str) -> (r: Result<String, FetchProductResponse>)
    ensures
        match r {
            Ok(u) => trim(url@).len() > 0 && u@ == trim(url@),
            Err(resp) => trim(url@).len() == 0 && !resp.success && !resp.incomplete && resp.data is None
                && opt_seq(resp.error) == Some("URL is required"@) && fetch_answer_shape(resp),
        },
{
    let t = crate::text::trim_str(url);
    if t.len() == 0 {
        Err(FetchProductResponse {
            success: false,
            incomplete: false,
            data: None,
            error: Some(crate::text::string_of("URL is required")),
        })
    } else {
        Ok(string_from(t.as_slice()))
    }
}

pub open spec fn http_failure_text(status: u16) -> Seq<char> {
    "HTTP "@ + crate::text::dec_nat(status as nat) + " from TikTok"@
}

/// The error of a page that answered with a failure status.
pub fn http_failure_message(status: u16) -> (r: String)
    ensures
        r@ == http_failure_text(status),
{
    let mut v: Vec<char> = Vec::new();
    append_str(&mut v, "HTTP ");
    let d = crate::text::fmt_u64(status as u64);
    append_chars(&mut v, d.as_slice());
    append_str(&mut v, " from TikTok");
    string_from(v.as_slice())
}

pub open spec fn security_message() -> Seq<char> {
    "TikTok returned a security or captcha page. Paste cookies from a logged-in browser (optional field) or try again later."@
}

/// What a loaded page gives: its data, or the answer for a security page
/// (incomplete, with what could be read).
pub fn read_product_page(html: &str, final_url: &str) -> (r: Result<ProductPageData, FetchProductResponse>)
    ensures
        match r {
            Ok(d) => !security_challenge(html@) && reads_page(d, html@, final_url@),
            Err(resp) => security_challenge(html@) && !resp.success && resp.incomplete
                && (resp.data matches Some(d) && reads_page(d, html@, final_url@))
                && opt_seq(resp.error) == Some(security_message()) && fetch_answer_shape(resp),
        },
{
    let data = parse_product_html(html, final_url);
    let h = str_chars(html);
    if html_suggests_security_challenge(h.as_slice()) {
        Err(FetchProductResponse {
            success: false,
            incomplete: true,
            data: Some(data),
            error: Some(crate::text::string_of(
                "TikTok returned a security or captcha page. Paste cookies from a logged-in browser (optional field) or try again later.",
            )),
        })
    } else {
        Ok(data)
    }
}

/// Media are downloaded when asked for and the page lists any.
pub fn wants_media_download(download_media: bool, data: &ProductPageData) -> (r: bool)
    ensures
        r == (download_media && (data.image_urls@.len() > 0 || data.video_urls@.len() > 0)),
{
    download_media && (data.image_urls.len() > 0 || data.video_urls.len() > 0)
}

/// The `(kind, url)` pairs to download: the images, then the videos.
pub fn media_download_items(data: &ProductPageData) -> (r: Vec<(String, String)>)
    ensures
        r@.len() == data.image_urls@.len() + data.video_urls@.len(),
        forall|k: int| 0 <= k < data.image_urls@.len() ==> (#[trigger] r@[k]).0@ == "image"@ && r@[k].1@ == data.image_urls@[k]@,
        forall|k: int| 0 <= k < data.video_urls@.len() ==> (#[trigger] r@[data.image_urls@.len() + k]).0@ == "video"@
            && r@[data.image_urls@.len() + k].1@ == data.video_urls@[k]@,
{
    let mut out: Vec<(String, String)> = Vec::new();
    let mut i: usize = 0;
    while i < data.image_urls.len()
        invariant
            i <= data.image_urls@.len(),
            out@.len() == i,
            forall|k: int| 0 <= k < i ==> (#[trigger] out@[k]).0@ == "image"@ && out@[k].1@ == data.image_urls@[k]@,
        decreases data.image_urls@.len() - i,
    {
        let ghost before = out@;
        let kind = crate::text::string_of("image");
        assert(kind@ == "image"@);
        let url = data.image_urls[i].clone();
        assert(url@ == data.image_urls@[i as int]@);
        let item = (kind, url);
        out.push(item);
        assert(out@[i as int].0@ == "image"@);
        proof {
            assert forall|k: int| 0 <= k < i + 1 implies (#[trigger] out@[k]).0@ == "image"@ && out@[k].1@ == data.image_urls@[k]@ by {
                if k < i {
                    assert(out@[k] == before[k]);
                } else {
                    assert(out@[k] == item);
                }
            }
        }
        i = i + 1;
    }
    let n = data.image_urls.len();
    let mut j: usize = 0;
    while j < data.video_urls.len()
        invariant
            n == data.image_urls@.len(),
            j <= data.video_urls@.len(),
            out@.len() == n + j,
            forall|k: int| 0 <= k < n ==> (#[trigger] out@[k]).0@ == "image"@ && out@[k].1@ == data.image_urls@[k]@,
            forall|k: int| 0 <= k < j ==> (#[trigger] out@[n + k]).0@ == "video"@ && out@[n + k].1@ == data.video_urls@[k]@,
        decreases data.video_urls@.len() - j,
    {
        let ghost before = out@;
        let item = (crate::text::string_of("video"), data.video_urls[j].clone());
        out.push(item);
        proof {
            assert forall|k: int| 0 <= k < n implies (#[trigger] out@[k]).0@ == "image"@ && out@[k].1@ == data.image_urls@[k]@ by {
                assert(out@[k] == before[k]);
            }
            assert forall|k: int| 0 <= k < j + 1 implies (#[trigger] out@[n + k]).0@ == "video"@ && out@[n + k].1@ == data.video_urls@[k]@ by {
                if k < j {
                    assert(out@[n + k] == before[n + k]);
                } else {
                    assert(out@[n + k] == item);
                }
            }
        }
        j = j + 1;
    }
    out
}

/// The most bytes a downloaded file may have: 80 MiB for a video, 25 MiB otherwise.
pub fn max_media_bytes(kind: &str) -> (r: usize)
    ensures
        r == (if kind@ == "video"@ {
            80 * 1024 * 1024
        } else {
            25 * 1024 * 1024
        }),
{
    if crate::text::str_eq(kind, "video") {
        80 * 1024 * 1024
    } else {
        25 * 1024 * 1024
    }
}

/// `n` in decimal, padded with zeros to three digits.
pub open spec fn pad3(n: nat) -> Seq<char> {
    let d = crate::text::dec_nat(n);
    if d.len() >= 3 {
        d
    } else {
        Seq::new((3 - d.len()) as nat, |i: int| '0') + d
    }
}

/// The name a downloaded file is saved under: `{kind}_{index:03}{ext}`.
pub fn media_file_name(kind: &str, index: usize, ext: &str) -> (r: String)
    ensures
        r@ == kind@ + "_"@ + pad3(index as nat) + ext@,
{
    let mut v: Vec<char> = Vec::new();
    append_str(&mut v, kind);
    append_str(&mut v, "_");
    let d = crate::text::fmt_u64(index as u64);
    let ghost before = v@;
    let mut k: usize = d.len();
    while k < 3
        invariant
            d.len() <= k <= 3 || (d.len() >= 3 && k == d.len()),
            v@ == before + Seq::new((k - d@.len()) as nat, |i: int| '0'),
        decreases 3 - k,
    {
        let ghost pre = v@;
        v.push('0');
        proof {
            assert(v@ =~= before + Seq::new((k + 1 - d@.len()) as nat, |i: int| '0'));
        }
        k = k + 1;
    }
    let ghost mid = v@;
    append_chars(&mut v, d.as_slice());
    append_str(&mut v, ext);
    proof {
        let dd = crate::text::dec_nat(index as nat);
        assert(d@ == dd);
        if dd.len() >= 3 {
            assert(mid =~= before);
        } else {
            assert(mid =~= before + Seq::new((3 - dd.len()) as nat, |i: int| '0'));
        }
        assert(v@ =~= kind@ + "_"@ + pad3(index as nat) + ext@);
    }
    string_from(v.as_slice())
}

/// Index of the first image among the files, if any.
pub open spec fn first_image(files: Seq<FetchedProductMediaFile>) -> Option<int>
    decreases files.len(),
{
    if files.len() == 0 {
        None
    } else if files[0].kind@ == "image"@ {
        Some(0)
    } else {
        match first_image(files.drop_first()) {
            Some(k) => Some(k + 1),
            None => None,
        }
    }
}

proof fn lemma_first_image_skip(files: Seq<FetchedProductMediaFile>, i: int)
    requires
        0 <= i <= files.len(),
        forall|j: int| 0 <= j < i ==> files[j].kind@ != "image"@,
    ensures
        first_image(files) == match first_image(files.subrange(i, files.len() as int)) {
            Some(k) => Some(k + i),
            None => None::<int>,
        },
    decreases i,
{
    if i > 0 {
        assert(files.subrange(1, files.len() as int) =~= files.drop_first());
        lemma_first_image_skip(files.drop_first(), i - 1);
        assert(files.drop_first().subrange(i - 1, files.drop_first().len() as int) =~= files.subrange(i, files.len() as int));
    } else {
        assert(files.subrange(0, files.len() as int) =~= files);
    }
}

/// The downloaded files go with the data; the first image, if any, becomes
/// the product's image.
pub fn attach_media_files(data: &mut ProductPageData, files: Vec<FetchedProductMediaFile>)
    ensures
        final(data).media_files@ == files@,
        final(data).name == old(data).name,
        final(data).description == old(data).description,
        final(data).price_text == old(data).price_text,
        final(data).category == old(data).category,
        final(data).tiktok_shop_id == old(data).tiktok_shop_id,
        final(data).image_urls@ == old(data).image_urls@,
        final(data).video_urls@ == old(data).video_urls@,
        match first_image(files@) {
            Some(k) => opt_seq(final(data).image_url) == Some(files@[k].path@),
            None => final(data).image_url == old(data).image_url,
        },
{
    let mut i: usize = 0;
    let mut first: Option<String> = None;
    while i < files.len()
        invariant_except_break
            first is None,
        invariant
            i <= files@.len(),
            forall|j: int| 0 <= j < i ==> files@[j].kind@ != "image"@,
        ensures
            first is None ==> i == files@.len(),
            first matches Some(p) ==> i < files@.len() && first_image(files@) == Some(i as int) && p@ == files@[i as int].path@,
        decreases files@.len() - i,
    {
        if crate::text::str_eq(files[i].kind.as_str(), "image") {
            proof {
                lemma_first_image_skip(files@, i as int);
                reveal_strlit("image");
            }
            first = Some(files[i].path.clone());
            break;
        }
        i = i + 1;
    }
    proof {
        if first is None {
            lemma_first_image_skip(files@, i as int);
            assert(files@.subrange(i as int, files@.len() as int) =~= Seq::<FetchedProductMediaFile>::empty());
        }
    }
    match first {
        Some(p) => {
            data.image_url = Some(p);
        },
        None => {},
    }
    data.media_files = files;
}

/// The final answer: a success when the page gave a product name.
pub fn finish_product_fetch(data: ProductPageData) -> (r: FetchProductResponse)
    ensures
        r.success == data.name is Some,
        r.incomplete == data.name is None,
        r.data == Some(data),
        data.name is Some ==> r.error is None,
        data.name is None ==> opt_seq(r.error)
            == Some("Could not find product title on this page (layout may have changed)."@),
        fetch_answer_shape(r),
{
    let success = data.name.is_some();
    let error = if success {
        None
    } else {
        Some(crate::text::string_of("Could not find product title on this page (layout may have changed)."))
    };
    FetchProductResponse { success, incomplete: !success, data: Some(data), error }
}

/// How loading a product page went.
pub enum ProductPageLoad {
    /// The HTTP client could not be built; its error.
    ClientError(String),
    /// The request could not be sent.
    NetworkError,
    /// The page answered: its status, the URL it ended at, and its text
    /// (`None` when the text could not be read or was not read).
    Answered { status: u16, final_url: String, body: Option<String> },
}

pub open spec fn network_error_message() -> Seq<char> {
    "Network error while loading the page"@
}

/// What a page gives once the downloaded media files, if any were
/// downloaded, go with it: the first image among them becomes its image.
pub open spec fn reads_page_with_media(
    d: ProductPageData,
    h: Seq<char>,
    final_url: Seq<char>,
    files: Option<Seq<FetchedProductMediaFile>>,
) -> bool {
    &&& opt_seq(d.name) == page_name(h)
    &&& opt_seq(d.description) == page_description(h)
    &&& opt_seq(d.price_text) == page_price_text(h)
    &&& opt_seq(d.category) == ld_str(h, "category"@)
    &&& opt_seq(d.tiktok_shop_id) == page_shop_id(h, final_url)
    &&& strings_view(d.image_urls@) == page_image_urls(h)
    &&& strings_view(d.video_urls@) == page_video_urls(h)
    &&& match files {
        None => d.media_files@.len() == 0 && opt_seq(d.image_url) == page_image_url(h),
        Some(fs) => d.media_files@ == fs && opt_seq(d.image_url) == match first_image(fs) {
            Some(k) => Some(fs[k].path@),
            None => page_image_url(h),
        },
    }
}

pub open spec fn opt_files(o: Option<Vec<FetchedProductMediaFile>>) -> Option<Seq<FetchedProductMediaFile>> {
    match o {
        Some(v) => Some(v@),
        None => None,
    }
}

/// The answer to a fetch of `url`, given how loading its page went and the
/// media files downloaded for it (`None` when none were downloaded):
/// an empty URL is refused; a client, network or HTTP failure gives an
/// incomplete answer with nothing known; a security page gives an
/// incomplete answer with what it shows; any other page gives its data,
/// a success exactly when it names the product.
pub fn answer_product_fetch(
    url: &str,
    load: ProductPageLoad,
    media_files: Option<Vec<FetchedProductMediaFile>>,
) -> (r: FetchProductResponse)
    ensures
        fetch_answer_shape(r),
        r.data is None <==> trim(url@).len() == 0,
        trim(url@).len() == 0 ==> !r.incomplete && opt_seq(r.error) == Some("URL is required"@),
        trim(url@).len() > 0 ==> match load {
            ProductPageLoad::ClientError(e) => !r.success && r.incomplete && (r.data matches Some(d) && is_empty_data(d))
                && opt_seq(r.error) == Some(e@),
            ProductPageLoad::NetworkError => !r.success && r.incomplete && (r.data matches Some(d) && is_empty_data(d))
                && opt_seq(r.error) == Some(network_error_message()),
            ProductPageLoad::Answered { status, final_url, body } => if !(200 <= status < 300) {
                !r.success && r.incomplete && (r.data matches Some(d) && is_empty_data(d))
                    && opt_seq(r.error) == Some(http_failure_text(status))
            } else {
                match body {
                    None => !r.success && r.incomplete && (r.data matches Some(d) && is_empty_data(d))
                        && opt_seq(r.error) == Some(network_error_message()),
                    Some(h) => if security_challenge(h@) {
                        !r.success && r.incomplete && (r.data matches Some(d) && reads_page(d, h@, final_url@))
                            && opt_seq(r.error) == Some(security_message())
                    } else {
                        r.data matches Some(d) && reads_page_with_media(d, h@, final_url@, opt_files(media_files))
                            && r.success == (page_name(h@) is Some)
                    },
                }
            },
        },
{
    match check_product_url(url) {
        Err(resp) => return resp,
        Ok(_) => {},
    }
    match load {
        ProductPageLoad::ClientError(e) => incomplete_response(e.as_str()),
        ProductPageLoad::NetworkError => incomplete_response("Network error while loading the page"),
        ProductPageLoad::Answered { status, final_url, body } => {
            if !(200 <= status && status < 300) {
                let m = http_failure_message(status);
                return incomplete_response(m.as_str());
            }
            match body {
                None => incomplete_response("Network error while loading the page"),
                Some(h) => match read_product_page(h.as_str(), final_url.as_str()) {
                    Err(resp) => resp,
                    Ok(data) => {
                        let mut data = data;
                        match media_files {
                            Some(files) => attach_media_files(&mut data, files),
                            None => {},
                        }
                        finish_product_fetch(data)
                    },
                },
            }
        },
    }
}

/// The media type of a `Content-Type` header: the part before any `;`,
/// trimmed and in lower case.
pub open spec fn content_type_essence(raw: Seq<char>) -> Seq<char> {
    lower(trim(match first_index(raw, ';') {
        Some(k) => raw.subrange(0, k),
        None => raw,
    }))
}

pub fn media_content_type(raw: &str) -> (r: String)
    ensures
        r@ == content_type_essence(raw@),
{
    let c = str_chars(raw);
    let head = match first_index_exec(c.as_slice(), ';') {
        Some(k) => {
            proof {
                lemma_first_index(c@, ';');
            }
            crate::text::slice_chars(c.as_slice(), 0, k)
        },
        None => c,
    };
    let t = crate::text::trim_chars(head.as_slice());
    let l = lower_chars(t.as_slice());
    string_from(l.as_slice())
}

/// A page's description: the product model's own description whenever the
/// page has a product model that gives one, whatever the Open Graph or JSON-LD
/// description says; otherwise the Open Graph description, else the JSON-LD one.
pub proof fn law_model_description_wins(h: Seq<char>, m: JsonView, d: Seq<char>)
    ensures
        page_model(h) == Some(m) && description_spec(m) == Some(d) ==> page_description(h) == Some(d),
        (page_model(h) is None || description_spec(page_model(h)->Some_0) is None) && og_tag(h, "description"@) == Some(d)
            ==> page_description(h) == Some(d),
        (page_model(h) is None || description_spec(page_model(h)->Some_0) is None) && og_tag(h, "description"@) is None
            ==> page_description(h) == ld_str(h, "description"@),
{
}

} // verus!
