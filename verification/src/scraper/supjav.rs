//! SupJav: category links and listing page URLs.
use vstd::prelude::*;
use crate::text;
use crate::text::{
    append, chars_of, concat, contains_at, find_char, format_decimal, has_char_at, string_of,
    trim_at, trim_char_at, trim_end_char_at, to_vec,
};
use crate::scraper::Category;
use crate::weburl::{form_urlencode, form_urlencoded};

verus! {

/// `https://supjav.com`, followed by `/<lang>` when a language is given
/// (trimmed, without surrounding slashes).
pub open spec fn supjav_prefix(lang: Seq<char>) -> Seq<char> {
    let clean = text::trim_char(text::trim(lang), '/');
    if clean.len() == 0 {
        "https://supjav.com"@
    } else {
        "https://supjav.com/"@ + clean
    }
}

/// The fixed categories: display name and path below the prefix.
pub open spec fn supjav_categories() -> Seq<(Seq<char>, Seq<char>)> {
    seq![
        ("最近更新"@, "/"@),
        ("本週熱門"@, "/popular?sort=week"@),
        ("本月熱門"@, "/popular?sort=month"@),
        ("無碼"@, "/category/uncensored-jav"@),
        ("有碼"@, "/category/censored-jav"@),
        ("素人"@, "/category/amateur"@),
        ("中文字幕"@, "/category/chinese-subtitles"@),
        ("英文字幕"@, "/category/english-subtitles"@),
        ("破壞版"@, "/category/reducing-mosaic"@),
    ]
}

fn supjav_prefix_exec(lang: &str) -> (r: Vec<char>)
    ensures
        r@ == supjav_prefix(lang@),
{
    let all = chars_of(lang);
    let clean = trim_char_at(trim_at(&all), '/');
    if clean.len() == 0 {
        chars_of("https://supjav.com")
    } else {
        concat(&chars_of("https://supjav.com/"), clean)
    }
}

fn category(name: &str, prefix: &Vec<char>, path: &str) -> (c: Category)
    ensures
        c.name@ == name@,
        c.url@ == prefix@ + path@,
{
    Category { name: name.to_string(), url: string_of(&concat(prefix, &chars_of(path))) }
}

/// The SupJav categories for the UI language.
pub fn get_categories(lang: &str) -> (r: Vec<Category>)
    ensures
        r@.len() == supjav_categories().len(),
        forall|i: int|
            0 <= i < r@.len() ==> #[trigger] r@[i].name@ == supjav_categories()[i].0 && r@[i].url@
                == supjav_prefix(lang@) + supjav_categories()[i].1,
{
    let prefix = supjav_prefix_exec(lang);
    let mut r: Vec<Category> = Vec::new();
    r.push(category("最近更新", &prefix, "/"));
    r.push(category("本週熱門", &prefix, "/popular?sort=week"));
    r.push(category("本月熱門", &prefix, "/popular?sort=month"));
    r.push(category("無碼", &prefix, "/category/uncensored-jav"));
    r.push(category("有碼", &prefix, "/category/censored-jav"));
    r.push(category("素人", &prefix, "/category/amateur"));
    r.push(category("中文字幕", &prefix, "/category/chinese-subtitles"));
    r.push(category("英文字幕", &prefix, "/category/english-subtitles"));
    r.push(category("破壞版", &prefix, "/category/reducing-mosaic"));
    r
}

/// The URL of page `page` of a SupJav listing: the base itself for the
/// first page; `<root>/page/<n>/?<query>` for a search (`?s=`/`&s=`);
/// `&page=<n>` appended when there is a query; `<base>/page/<n>` otherwise.
pub open spec fn spec_supjav_page_url(base: Seq<char>, page: nat) -> Seq<char> {
    if page <= 1 {
        base
    } else if text::contains(base, "?s="@) || text::contains(base, "&s="@) {
        let root = match text::find(base, seq!['?']) {
            Some(i) => base.take(i),
            None => base,
        };
        let qs = match text::find(base, seq!['?']) {
            Some(i) => base.skip(i + 1),
            None => Seq::empty(),
        };
        text::trim_end_char(root, '/') + "/page/"@ + text::decimal(page) + "/?"@ + qs
    } else if text::has_char(base, '?') {
        base + "&page="@ + text::decimal(page)
    } else {
        text::trim_end_char(base, '/') + "/page/"@ + text::decimal(page)
    }
}

/// The URL of page `page` of a SupJav listing.
pub fn build_supjav_page_url(base_url: &str, page: usize) -> (r: String)
    ensures
        r@ == spec_supjav_page_url(base_url@, page as nat),
{
    if page <= 1 {
        return base_url.to_string();
    }
    let base = chars_of(base_url);
    let n = format_decimal(page as u64);
    if contains_at(&base, &chars_of("?s=")) || contains_at(&base, &chars_of("&s=")) {
        let (root, qs): (&[char], &[char]) = match find_char(&base, '?') {
            Some(i) => {
                assert(i < base.len());
                assert(base@.subrange(0, i as int) =~= base@.take(i as int));
                assert(base@.subrange(i + 1, base@.len() as int) =~= base@.skip(i + 1));
                (&base[0..i], &base[i + 1..base.len()])
            },
            None => {
                assert(base@.subrange(0, 0) =~= Seq::<char>::empty());
                (base.as_slice(), &base[0..0])
            },
        };
        let mut v = to_vec(trim_end_char_at(root, '/'));
        append(&mut v, &chars_of("/page/"));
        append(&mut v, &n);
        append(&mut v, &chars_of("/?"));
        append(&mut v, qs);
        return string_of(&v);
    }
    if has_char_at(&base, '?') {
        let mut v = to_vec(&base);
        append(&mut v, &chars_of("&page="));
        append(&mut v, &n);
        return string_of(&v);
    }
    let mut v = to_vec(trim_end_char_at(&base, '/'));
    append(&mut v, &chars_of("/page/"));
    append(&mut v, &n);
    string_of(&v)
}


/// The search page of a keyword on SupJav:
/// `https://supjav.com/[<lang>/]?s=<keyword, form-encoded>`.
pub fn search_url(keyword: &str, lang: &str) -> (r: String)
    ensures
        r@ == (if text::trim_char(text::trim(lang@), '/').len() == 0 {
            "https://supjav.com/"@
        } else {
            "https://supjav.com/"@ + text::trim_char(text::trim(lang@), '/') + "/"@
        }) + "?s="@ + form_urlencoded(vstd::utf8::encode_utf8(keyword@)),
{
    let lv = chars_of(lang);
    let clean = trim_char_at(trim_at(&lv), '/');
    let base = if clean.len() == 0 {
        chars_of("https://supjav.com/")
    } else {
        concat(&concat(&chars_of("https://supjav.com/"), clean), &chars_of("/"))
    };
    let enc = form_urlencode(keyword);
    string_of(&concat(&concat(&base, &chars_of("?s=")), &chars_of(enc.as_str())))
}

} // verus!
