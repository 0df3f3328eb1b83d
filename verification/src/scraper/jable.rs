//! JableTV: the categories, the fixed sidebar tags and the search address.
use vstd::prelude::*;
use crate::text;
use crate::text::{chars_of, concat, contains_at, eq, string_of, trim_at};
use crate::scraper::{Category, TagItem};
use crate::scraper::listing::{spec_with_lang, with_lang};
use crate::pattern::{regex_replace_all, regex_replaced_all};
use crate::html::{dom_nodes_attr, dom_nodes_text, nodes_attr, nodes_text, opt_strings_view, strings_view};
use crate::weburl::{form_urlencode, form_urlencoded};

verus! {

/// The URL of a tag's page.
pub open spec fn tag_url(slug: Seq<char>) -> Seq<char> {
    "https://jable.tv/tags/"@ + slug + "/"@
}

/// The sidebar: groups of (display name, slug) pairs.
pub open spec fn sidebar_groups() -> Seq<(Seq<char>, Seq<(Seq<char>, Seq<char>)>)> {
    seq![
        ("衣著"@, seq![
            ("黑絲"@, "black-pantyhose"@),
            ("過膝襪"@, "knee-socks"@),
            ("運動裝"@, "sportswear"@),
            ("肉絲"@, "flesh-toned-pantyhose"@),
            ("絲襪"@, "pantyhose"@),
            ("眼鏡娘"@, "glasses"@),
            ("獸耳"@, "kemonomimi"@),
            ("漁網"@, "fishnets"@),
            ("水着"@, "swimsuit"@),
            ("校服"@, "school-uniform"@),
            ("旗袍"@, "cheongsam"@),
            ("婚紗"@, "wedding-dress"@),
            ("女僕"@, "maid"@),
            ("和服"@, "kimono"@),
            ("吊帶襪"@, "stockings"@),
            ("兔女郎"@, "bunny-girl"@),
            ("Cosplay"@, "Cosplay"@),
        ]),
        ("身材"@, seq![
            ("黑肉"@, "suntan"@),
            ("長身"@, "tall"@),
            ("軟體"@, "flexible-body"@),
            ("貧乳"@, "small-tits"@),
            ("美腿"@, "beautiful-leg"@),
            ("美尻"@, "beautiful-butt"@),
            ("紋身"@, "tattoo"@),
            ("短髮"@, "short-hair"@),
            ("白虎"@, "hairless-pussy"@),
            ("熟女"@, "mature-woman"@),
            ("巨乳"@, "big-tits"@),
            ("少女"@, "girl"@),
            ("嬌小"@, "dainty"@),
        ]),
        ("交合"@, seq![
            ("顏射"@, "facial"@),
            ("腳交"@, "footjob"@),
            ("肛交"@, "anal-sex"@),
            ("痙攣"@, "spasms"@),
            ("潮吹"@, "squirting"@),
            ("深喉"@, "deep-throat"@),
            ("接吻"@, "kiss"@),
            ("口爆"@, "cum-in-mouth"@),
            ("口交"@, "blowjob"@),
            ("乳交"@, "tit-wank"@),
            ("中出"@, "creampie"@),
        ]),
        ("玩法"@, seq![
            ("露出"@, "outdoor"@),
            ("集團進犯"@, "gang-intrusion"@),
            ("進犯"@, "intrusion"@),
            ("調教"@, "tune"@),
            ("綑綁"@, "bondage"@),
            ("瞬間插入"@, "quickie"@),
            ("痴漢"@, "chikan"@),
            ("痴女"@, "chizyo"@),
            ("男M"@, "masochism-guy"@),
            ("泥醉"@, "crapulence"@),
            ("泡姬"@, "soapland"@),
            ("母乳"@, "breast-milk"@),
            ("放尿"@, "piss"@),
            ("按摩"@, "massage"@),
            ("多P"@, "groupsex"@),
            ("刑具"@, "grip"@),
            ("凌辱"@, "insult"@),
            ("一日十回"@, "10-times-a-day"@),
            ("3P"@, "3p"@),
        ]),
        ("劇情"@, seq![
            ("黑人"@, "black"@),
            ("醜男"@, "ugly-man"@),
            ("誘惑"@, "temptation"@),
            ("親屬"@, "kinship"@),
            ("童貞"@, "virginity"@),
            ("時間停止"@, "time-stop"@),
            ("復仇"@, "avenge"@),
            ("年齡差"@, "age-difference"@),
            ("巨漢"@, "giant"@),
            ("媚藥"@, "love-potion"@),
            ("夫目前犯"@, "sex-beside-husband"@),
            ("出軌"@, "affair"@),
            ("催眠"@, "hypnosis"@),
            ("偷拍"@, "private-cam"@),
            ("下雨天"@, "rainy-day"@),
            ("NTR"@, "ntr"@),
        ]),
        ("角色"@, seq![
            ("風俗娘"@, "club-hostess-and-sex-worker"@),
            ("醫生"@, "doctor"@),
            ("逃犯"@, "fugitive"@),
            ("護士"@, "nurse"@),
            ("老師"@, "teacher"@),
            ("空姐"@, "flight-attendant"@),
            ("球隊經理"@, "team-manager"@),
            ("未亡人"@, "widow"@),
            ("搜查官"@, "detective"@),
            ("情侶"@, "couple"@),
            ("家政婦"@, "housewife"@),
            ("家庭教師"@, "private-teacher"@),
            ("偶像"@, "idol"@),
            ("人妻"@, "wife"@),
            ("主播"@, "female-anchor"@),
            ("OL"@, "ol"@),
        ]),
        ("地點"@, seq![
            ("魔鏡號"@, "magic-mirror"@),
            ("電車"@, "tram"@),
            ("處女"@, "first-night"@),
            ("監獄"@, "prison"@),
            ("溫泉"@, "hot-spring"@),
            ("洗浴場"@, "bathing-place"@),
            ("泳池"@, "swimming-pool"@),
            ("汽車"@, "car"@),
            ("廁所"@, "toilet"@),
            ("學校"@, "school"@),
            ("圖書館"@, "library"@),
            ("健身房"@, "gym-room"@),
            ("便利店"@, "store"@),
        ]),
        ("雜項"@, seq![
            ("錄像"@, "video-recording"@),
            ("處女作/引退作"@, "debut-retires"@),
            ("綜藝"@, "variety-show"@),
            ("節日主題"@, "festival"@),
            ("感謝祭"@, "thanksgiving"@),
            ("4小時以上"@, "more-than-4-hours"@),
        ]),
    ]
}

fn tag(name: &str, slug: &str) -> (t: TagItem)
    ensures
        t.name@ == name@,
        t.slug@ == slug@,
        t.url@ == tag_url(slug@),
{
    let url = concat(&concat(&chars_of("https://jable.tv/tags/"), &chars_of(slug)), &chars_of("/"));
    TagItem { name: name.to_string(), slug: slug.to_string(), url: string_of(&url) }
}

pub open spec fn tags_match(items: Seq<TagItem>, tags: Seq<(Seq<char>, Seq<char>)>) -> bool {
    &&& items.len() == tags.len()
    &&& forall|k: int|
        0 <= k < items.len() ==> #[trigger] items[k].name@ == tags[k].0 && items[k].slug@ == tags[k].1
            && items[k].url@ == tag_url(tags[k].1)
}

/// What tells the sidebar's slugs apart: length, first two and last
/// characters.
pub open spec fn slug_key(s: Seq<char>) -> (nat, char, char, char) {
    (s.len(), s[0], s[1], s[s.len() - 1])
}

/// The keys of the sidebar's slugs, group by group.
pub open spec fn sidebar_slug_keys() -> Seq<Seq<(nat, char, char, char)>> {
    seq![
        seq![(15nat, 'b', 'l', 'e'), (10nat, 'k', 'n', 's'), (10nat, 's', 'p', 'r'), (21nat, 'f', 'l', 'e'), (9nat, 'p', 'a', 'e'), (7nat, 'g', 'l', 's'), (10nat, 'k', 'e', 'i'), (8nat, 'f', 'i', 's'), (8nat, 's', 'w', 't'), (14nat, 's', 'c', 'm'), (9nat, 'c', 'h', 'm'), (13nat, 'w', 'e', 's'), (4nat, 'm', 'a', 'd'), (6nat, 'k', 'i', 'o'), (9nat, 's', 't', 's'), (10nat, 'b', 'u', 'l'), (7nat, 'C', 'o', 'y')],
        seq![(6nat, 's', 'u', 'n'), (4nat, 't', 'a', 'l'), (13nat, 'f', 'l', 'y'), (10nat, 's', 'm', 's'), (13nat, 'b', 'e', 'g'), (14nat, 'b', 'e', 't'), (6nat, 't', 'a', 'o'), (10nat, 's', 'h', 'r'), (14nat, 'h', 'a', 'y'), (12nat, 'm', 'a', 'n'), (8nat, 'b', 'i', 's'), (4nat, 'g', 'i', 'l'), (6nat, 'd', 'a', 'y')],
        seq![(6nat, 'f', 'a', 'l'), (7nat, 'f', 'o', 'b'), (8nat, 'a', 'n', 'x'), (6nat, 's', 'p', 's'), (9nat, 's', 'q', 'g'), (11nat, 'd', 'e', 't'), (4nat, 'k', 'i', 's'), (12nat, 'c', 'u', 'h'), (7nat, 'b', 'l', 'b'), (8nat, 't', 'i', 'k'), (8nat, 'c', 'r', 'e')],
        seq![(7nat, 'o', 'u', 'r'), (14nat, 'g', 'a', 'n'), (9nat, 'i', 'n', 'n'), (4nat, 't', 'u', 'e'), (7nat, 'b', 'o', 'e'), (7nat, 'q', 'u', 'e'), (6nat, 'c', 'h', 'n'), (6nat, 'c', 'h', 'o'), (13nat, 'm', 'a', 'y'), (10nat, 'c', 'r', 'e'), (8nat, 's', 'o', 'd'), (11nat, 'b', 'r', 'k'), (4nat, 'p', 'i', 's'), (7nat, 'm', 'a', 'e'), (8nat, 'g', 'r', 'x'), (4nat, 'g', 'r', 'p'), (6nat, 'i', 'n', 't'), (14nat, '1', '0', 'y'), (2nat, '3', 'p', 'p')],
        seq![(5nat, 'b', 'l', 'k'), (8nat, 'u', 'g', 'n'), (10nat, 't', 'e', 'n'), (7nat, 'k', 'i', 'p'), (9nat, 'v', 'i', 'y'), (9nat, 't', 'i', 'p'), (6nat, 'a', 'v', 'e'), (14nat, 'a', 'g', 'e'), (5nat, 'g', 'i', 't'), (11nat, 'l', 'o', 'n'), (18nat, 's', 'e', 'd'), (6nat, 'a', 'f', 'r'), (8nat, 'h', 'y', 's'), (11nat, 'p', 'r', 'm'), (9nat, 'r', 'a', 'y'), (3nat, 'n', 't', 'r')],
        seq![(27nat, 'c', 'l', 'r'), (6nat, 'd', 'o', 'r'), (8nat, 'f', 'u', 'e'), (5nat, 'n', 'u', 'e'), (7nat, 't', 'e', 'r'), (16nat, 'f', 'l', 't'), (12nat, 't', 'e', 'r'), (5nat, 'w', 'i', 'w'), (9nat, 'd', 'e', 'e'), (6nat, 'c', 'o', 'e'), (9nat, 'h', 'o', 'e'), (15nat, 'p', 'r', 'r'), (4nat, 'i', 'd', 'l'), (4nat, 'w', 'i', 'e'), (13nat, 'f', 'e', 'r'), (2nat, 'o', 'l', 'l')],
        seq![(12nat, 'm', 'a', 'r'), (4nat, 't', 'r', 'm'), (11nat, 'f', 'i', 't'), (6nat, 'p', 'r', 'n'), (10nat, 'h', 'o', 'g'), (13nat, 'b', 'a', 'e'), (13nat, 's', 'w', 'l'), (3nat, 'c', 'a', 'r'), (6nat, 't', 'o', 't'), (6nat, 's', 'c', 'l'), (7nat, 'l', 'i', 'y'), (8nat, 'g', 'y', 'm'), (5nat, 's', 't', 'e')],
        seq![(15nat, 'v', 'i', 'g'), (13nat, 'd', 'e', 's'), (12nat, 'v', 'a', 'w'), (8nat, 'f', 'e', 'l'), (12nat, 't', 'h', 'g'), (17nat, 'm', 'o', 's')],
    ]
}

proof fn lemma_slug_keys_0()
    ensures
        forall|k: int| 0 <= k < sidebar_groups()[0].1.len() ==> slug_key(#[trigger] sidebar_groups()[0].1[k].1) == sidebar_slug_keys()[0][k],
{
    reveal_strlit("black-pantyhose");
    reveal_strlit("knee-socks");
    reveal_strlit("sportswear");
    reveal_strlit("flesh-toned-pantyhose");
    reveal_strlit("pantyhose");
    reveal_strlit("glasses");
    reveal_strlit("kemonomimi");
    reveal_strlit("fishnets");
    reveal_strlit("swimsuit");
    reveal_strlit("school-uniform");
    reveal_strlit("cheongsam");
    reveal_strlit("wedding-dress");
    reveal_strlit("maid");
    reveal_strlit("kimono");
    reveal_strlit("stockings");
    reveal_strlit("bunny-girl");
    reveal_strlit("Cosplay");
    assert(sidebar_groups()[0].1.len() == 17);
    assert(slug_key(sidebar_groups()[0].1[0].1) == sidebar_slug_keys()[0][0]);
    assert(slug_key(sidebar_groups()[0].1[1].1) == sidebar_slug_keys()[0][1]);
    assert(slug_key(sidebar_groups()[0].1[2].1) == sidebar_slug_keys()[0][2]);
    assert(slug_key(sidebar_groups()[0].1[3].1) == sidebar_slug_keys()[0][3]);
    assert(slug_key(sidebar_groups()[0].1[4].1) == sidebar_slug_keys()[0][4]);
    assert(slug_key(sidebar_groups()[0].1[5].1) == sidebar_slug_keys()[0][5]);
    assert(slug_key(sidebar_groups()[0].1[6].1) == sidebar_slug_keys()[0][6]);
    assert(slug_key(sidebar_groups()[0].1[7].1) == sidebar_slug_keys()[0][7]);
    assert(slug_key(sidebar_groups()[0].1[8].1) == sidebar_slug_keys()[0][8]);
    assert(slug_key(sidebar_groups()[0].1[9].1) == sidebar_slug_keys()[0][9]);
    assert(slug_key(sidebar_groups()[0].1[10].1) == sidebar_slug_keys()[0][10]);
    assert(slug_key(sidebar_groups()[0].1[11].1) == sidebar_slug_keys()[0][11]);
    assert(slug_key(sidebar_groups()[0].1[12].1) == sidebar_slug_keys()[0][12]);
    assert(slug_key(sidebar_groups()[0].1[13].1) == sidebar_slug_keys()[0][13]);
    assert(slug_key(sidebar_groups()[0].1[14].1) == sidebar_slug_keys()[0][14]);
    assert(slug_key(sidebar_groups()[0].1[15].1) == sidebar_slug_keys()[0][15]);
    assert(slug_key(sidebar_groups()[0].1[16].1) == sidebar_slug_keys()[0][16]);
}

proof fn lemma_slug_keys_1()
    ensures
        forall|k: int| 0 <= k < sidebar_groups()[1].1.len() ==> slug_key(#[trigger] sidebar_groups()[1].1[k].1) == sidebar_slug_keys()[1][k],
{
    reveal_strlit("suntan");
    reveal_strlit("tall");
    reveal_strlit("flexible-body");
    reveal_strlit("small-tits");
    reveal_strlit("beautiful-leg");
    reveal_strlit("beautiful-butt");
    reveal_strlit("tattoo");
    reveal_strlit("short-hair");
    reveal_strlit("hairless-pussy");
    reveal_strlit("mature-woman");
    reveal_strlit("big-tits");
    reveal_strlit("girl");
    reveal_strlit("dainty");
    assert(sidebar_groups()[1].1.len() == 13);
    assert(slug_key(sidebar_groups()[1].1[0].1) == sidebar_slug_keys()[1][0]);
    assert(slug_key(sidebar_groups()[1].1[1].1) == sidebar_slug_keys()[1][1]);
    assert(slug_key(sidebar_groups()[1].1[2].1) == sidebar_slug_keys()[1][2]);
    assert(slug_key(sidebar_groups()[1].1[3].1) == sidebar_slug_keys()[1][3]);
    assert(slug_key(sidebar_groups()[1].1[4].1) == sidebar_slug_keys()[1][4]);
    assert(slug_key(sidebar_groups()[1].1[5].1) == sidebar_slug_keys()[1][5]);
    assert(slug_key(sidebar_groups()[1].1[6].1) == sidebar_slug_keys()[1][6]);
    assert(slug_key(sidebar_groups()[1].1[7].1) == sidebar_slug_keys()[1][7]);
    assert(slug_key(sidebar_groups()[1].1[8].1) == sidebar_slug_keys()[1][8]);
    assert(slug_key(sidebar_groups()[1].1[9].1) == sidebar_slug_keys()[1][9]);
    assert(slug_key(sidebar_groups()[1].1[10].1) == sidebar_slug_keys()[1][10]);
    assert(slug_key(sidebar_groups()[1].1[11].1) == sidebar_slug_keys()[1][11]);
    assert(slug_key(sidebar_groups()[1].1[12].1) == sidebar_slug_keys()[1][12]);
}

proof fn lemma_slug_keys_2()
    ensures
        forall|k: int| 0 <= k < sidebar_groups()[2].1.len() ==> slug_key(#[trigger] sidebar_groups()[2].1[k].1) == sidebar_slug_keys()[2][k],
{
    reveal_strlit("facial");
    reveal_strlit("footjob");
    reveal_strlit("anal-sex");
    reveal_strlit("spasms");
    reveal_strlit("squirting");
    reveal_strlit("deep-throat");
    reveal_strlit("kiss");
    reveal_strlit("cum-in-mouth");
    reveal_strlit("blowjob");
    reveal_strlit("tit-wank");
    reveal_strlit("creampie");
    assert(sidebar_groups()[2].1.len() == 11);
    assert(slug_key(sidebar_groups()[2].1[0].1) == sidebar_slug_keys()[2][0]);
    assert(slug_key(sidebar_groups()[2].1[1].1) == sidebar_slug_keys()[2][1]);
    assert(slug_key(sidebar_groups()[2].1[2].1) == sidebar_slug_keys()[2][2]);
    assert(slug_key(sidebar_groups()[2].1[3].1) == sidebar_slug_keys()[2][3]);
    assert(slug_key(sidebar_groups()[2].1[4].1) == sidebar_slug_keys()[2][4]);
    assert(slug_key(sidebar_groups()[2].1[5].1) == sidebar_slug_keys()[2][5]);
    assert(slug_key(sidebar_groups()[2].1[6].1) == sidebar_slug_keys()[2][6]);
    assert(slug_key(sidebar_groups()[2].1[7].1) == sidebar_slug_keys()[2][7]);
    assert(slug_key(sidebar_groups()[2].1[8].1) == sidebar_slug_keys()[2][8]);
    assert(slug_key(sidebar_groups()[2].1[9].1) == sidebar_slug_keys()[2][9]);
    assert(slug_key(sidebar_groups()[2].1[10].1) == sidebar_slug_keys()[2][10]);
}

proof fn lemma_slug_keys_3()
    ensures
        forall|k: int| 0 <= k < sidebar_groups()[3].1.len() ==> slug_key(#[trigger] sidebar_groups()[3].1[k].1) == sidebar_slug_keys()[3][k],
{
    reveal_strlit("outdoor");
    reveal_strlit("gang-intrusion");
    reveal_strlit("intrusion");
    reveal_strlit("tune");
    reveal_strlit("bondage");
    reveal_strlit("quickie");
    reveal_strlit("chikan");
    reveal_strlit("chizyo");
    reveal_strlit("masochism-guy");
    reveal_strlit("crapulence");
    reveal_strlit("soapland");
    reveal_strlit("breast-milk");
    reveal_strlit("piss");
    reveal_strlit("massage");
    reveal_strlit("groupsex");
    reveal_strlit("grip");
    reveal_strlit("insult");
    reveal_strlit("10-times-a-day");
    reveal_strlit("3p");
    assert(sidebar_groups()[3].1.len() == 19);
    assert(slug_key(sidebar_groups()[3].1[0].1) == sidebar_slug_keys()[3][0]);
    assert(slug_key(sidebar_groups()[3].1[1].1) == sidebar_slug_keys()[3][1]);
    assert(slug_key(sidebar_groups()[3].1[2].1) == sidebar_slug_keys()[3][2]);
    assert(slug_key(sidebar_groups()[3].1[3].1) == sidebar_slug_keys()[3][3]);
    assert(slug_key(sidebar_groups()[3].1[4].1) == sidebar_slug_keys()[3][4]);
    assert(slug_key(sidebar_groups()[3].1[5].1) == sidebar_slug_keys()[3][5]);
    assert(slug_key(sidebar_groups()[3].1[6].1) == sidebar_slug_keys()[3][6]);
    assert(slug_key(sidebar_groups()[3].1[7].1) == sidebar_slug_keys()[3][7]);
    assert(slug_key(sidebar_groups()[3].1[8].1) == sidebar_slug_keys()[3][8]);
    assert(slug_key(sidebar_groups()[3].1[9].1) == sidebar_slug_keys()[3][9]);
    assert(slug_key(sidebar_groups()[3].1[10].1) == sidebar_slug_keys()[3][10]);
    assert(slug_key(sidebar_groups()[3].1[11].1) == sidebar_slug_keys()[3][11]);
    assert(slug_key(sidebar_groups()[3].1[12].1) == sidebar_slug_keys()[3][12]);
    assert(slug_key(sidebar_groups()[3].1[13].1) == sidebar_slug_keys()[3][13]);
    assert(slug_key(sidebar_groups()[3].1[14].1) == sidebar_slug_keys()[3][14]);
    assert(slug_key(sidebar_groups()[3].1[15].1) == sidebar_slug_keys()[3][15]);
    assert(slug_key(sidebar_groups()[3].1[16].1) == sidebar_slug_keys()[3][16]);
    assert(slug_key(sidebar_groups()[3].1[17].1) == sidebar_slug_keys()[3][17]);
    assert(slug_key(sidebar_groups()[3].1[18].1) == sidebar_slug_keys()[3][18]);
}

proof fn lemma_slug_keys_4()
    ensures
        forall|k: int| 0 <= k < sidebar_groups()[4].1.len() ==> slug_key(#[trigger] sidebar_groups()[4].1[k].1) == sidebar_slug_keys()[4][k],
{
    reveal_strlit("black");
    reveal_strlit("ugly-man");
    reveal_strlit("temptation");
    reveal_strlit("kinship");
    reveal_strlit("virginity");
    reveal_strlit("time-stop");
    reveal_strlit("avenge");
    reveal_strlit("age-difference");
    reveal_strlit("giant");
    reveal_strlit("love-potion");
    reveal_strlit("sex-beside-husband");
    reveal_strlit("affair");
    reveal_strlit("hypnosis");
    reveal_strlit("private-cam");
    reveal_strlit("rainy-day");
    reveal_strlit("ntr");
    assert(sidebar_groups()[4].1.len() == 16);
    assert(slug_key(sidebar_groups()[4].1[0].1) == sidebar_slug_keys()[4][0]);
    assert(slug_key(sidebar_groups()[4].1[1].1) == sidebar_slug_keys()[4][1]);
    assert(slug_key(sidebar_groups()[4].1[2].1) == sidebar_slug_keys()[4][2]);
    assert(slug_key(sidebar_groups()[4].1[3].1) == sidebar_slug_keys()[4][3]);
    assert(slug_key(sidebar_groups()[4].1[4].1) == sidebar_slug_keys()[4][4]);
    assert(slug_key(sidebar_groups()[4].1[5].1) == sidebar_slug_keys()[4][5]);
    assert(slug_key(sidebar_groups()[4].1[6].1) == sidebar_slug_keys()[4][6]);
    assert(slug_key(sidebar_groups()[4].1[7].1) == sidebar_slug_keys()[4][7]);
    assert(slug_key(sidebar_groups()[4].1[8].1) == sidebar_slug_keys()[4][8]);
    assert(slug_key(sidebar_groups()[4].1[9].1) == sidebar_slug_keys()[4][9]);
    assert(slug_key(sidebar_groups()[4].1[10].1) == sidebar_slug_keys()[4][10]);
    assert(slug_key(sidebar_groups()[4].1[11].1) == sidebar_slug_keys()[4][11]);
    assert(slug_key(sidebar_groups()[4].1[12].1) == sidebar_slug_keys()[4][12]);
    assert(slug_key(sidebar_groups()[4].1[13].1) == sidebar_slug_keys()[4][13]);
    assert(slug_key(sidebar_groups()[4].1[14].1) == sidebar_slug_keys()[4][14]);
    assert(slug_key(sidebar_groups()[4].1[15].1) == sidebar_slug_keys()[4][15]);
}

proof fn lemma_slug_keys_5()
    ensures
        forall|k: int| 0 <= k < sidebar_groups()[5].1.len() ==> slug_key(#[trigger] sidebar_groups()[5].1[k].1) == sidebar_slug_keys()[5][k],
{
    reveal_strlit("club-hostess-and-sex-worker");
    reveal_strlit("doctor");
    reveal_strlit("fugitive");
    reveal_strlit("nurse");
    reveal_strlit("teacher");
    reveal_strlit("flight-attendant");
    reveal_strlit("team-manager");
    reveal_strlit("widow");
    reveal_strlit("detective");
    reveal_strlit("couple");
    reveal_strlit("housewife");
    reveal_strlit("private-teacher");
    reveal_strlit("idol");
    reveal_strlit("wife");
    reveal_strlit("female-anchor");
    reveal_strlit("ol");
    assert(sidebar_groups()[5].1.len() == 16);
    assert(slug_key(sidebar_groups()[5].1[0].1) == sidebar_slug_keys()[5][0]);
    assert(slug_key(sidebar_groups()[5].1[1].1) == sidebar_slug_keys()[5][1]);
    assert(slug_key(sidebar_groups()[5].1[2].1) == sidebar_slug_keys()[5][2]);
    assert(slug_key(sidebar_groups()[5].1[3].1) == sidebar_slug_keys()[5][3]);
    assert(slug_key(sidebar_groups()[5].1[4].1) == sidebar_slug_keys()[5][4]);
    assert(slug_key(sidebar_groups()[5].1[5].1) == sidebar_slug_keys()[5][5]);
    assert(slug_key(sidebar_groups()[5].1[6].1) == sidebar_slug_keys()[5][6]);
    assert(slug_key(sidebar_groups()[5].1[7].1) == sidebar_slug_keys()[5][7]);
    assert(slug_key(sidebar_groups()[5].1[8].1) == sidebar_slug_keys()[5][8]);
    assert(slug_key(sidebar_groups()[5].1[9].1) == sidebar_slug_keys()[5][9]);
    assert(slug_key(sidebar_groups()[5].1[10].1) == sidebar_slug_keys()[5][10]);
    assert(slug_key(sidebar_groups()[5].1[11].1) == sidebar_slug_keys()[5][11]);
    assert(slug_key(sidebar_groups()[5].1[12].1) == sidebar_slug_keys()[5][12]);
    assert(slug_key(sidebar_groups()[5].1[13].1) == sidebar_slug_keys()[5][13]);
    assert(slug_key(sidebar_groups()[5].1[14].1) == sidebar_slug_keys()[5][14]);
    assert(slug_key(sidebar_groups()[5].1[15].1) == sidebar_slug_keys()[5][15]);
}

proof fn lemma_slug_keys_6()
    ensures
        forall|k: int| 0 <= k < sidebar_groups()[6].1.len() ==> slug_key(#[trigger] sidebar_groups()[6].1[k].1) == sidebar_slug_keys()[6][k],
{
    reveal_strlit("magic-mirror");
    reveal_strlit("tram");
    reveal_strlit("first-night");
    reveal_strlit("prison");
    reveal_strlit("hot-spring");
    reveal_strlit("bathing-place");
    reveal_strlit("swimming-pool");
    reveal_strlit("car");
    reveal_strlit("toilet");
    reveal_strlit("school");
    reveal_strlit("library");
    reveal_strlit("gym-room");
    reveal_strlit("store");
    assert(sidebar_groups()[6].1.len() == 13);
    assert(slug_key(sidebar_groups()[6].1[0].1) == sidebar_slug_keys()[6][0]);
    assert(slug_key(sidebar_groups()[6].1[1].1) == sidebar_slug_keys()[6][1]);
    assert(slug_key(sidebar_groups()[6].1[2].1) == sidebar_slug_keys()[6][2]);
    assert(slug_key(sidebar_groups()[6].1[3].1) == sidebar_slug_keys()[6][3]);
    assert(slug_key(sidebar_groups()[6].1[4].1) == sidebar_slug_keys()[6][4]);
    assert(slug_key(sidebar_groups()[6].1[5].1) == sidebar_slug_keys()[6][5]);
    assert(slug_key(sidebar_groups()[6].1[6].1) == sidebar_slug_keys()[6][6]);
    assert(slug_key(sidebar_groups()[6].1[7].1) == sidebar_slug_keys()[6][7]);
    assert(slug_key(sidebar_groups()[6].1[8].1) == sidebar_slug_keys()[6][8]);
    assert(slug_key(sidebar_groups()[6].1[9].1) == sidebar_slug_keys()[6][9]);
    assert(slug_key(sidebar_groups()[6].1[10].1) == sidebar_slug_keys()[6][10]);
    assert(slug_key(sidebar_groups()[6].1[11].1) == sidebar_slug_keys()[6][11]);
    assert(slug_key(sidebar_groups()[6].1[12].1) == sidebar_slug_keys()[6][12]);
}

proof fn lemma_slug_keys_7()
    ensures
        forall|k: int| 0 <= k < sidebar_groups()[7].1.len() ==> slug_key(#[trigger] sidebar_groups()[7].1[k].1) == sidebar_slug_keys()[7][k],
{
    reveal_strlit("video-recording");
    reveal_strlit("debut-retires");
    reveal_strlit("variety-show");
    reveal_strlit("festival");
    reveal_strlit("thanksgiving");
    reveal_strlit("more-than-4-hours");
    assert(sidebar_groups()[7].1.len() == 6);
    assert(slug_key(sidebar_groups()[7].1[0].1) == sidebar_slug_keys()[7][0]);
    assert(slug_key(sidebar_groups()[7].1[1].1) == sidebar_slug_keys()[7][1]);
    assert(slug_key(sidebar_groups()[7].1[2].1) == sidebar_slug_keys()[7][2]);
    assert(slug_key(sidebar_groups()[7].1[3].1) == sidebar_slug_keys()[7][3]);
    assert(slug_key(sidebar_groups()[7].1[4].1) == sidebar_slug_keys()[7][4]);
    assert(slug_key(sidebar_groups()[7].1[5].1) == sidebar_slug_keys()[7][5]);
}

proof fn lemma_slug_keys_distinct_0(k1: int, g2: int, k2: int)
    requires
        0 <= k1 < sidebar_slug_keys()[0].len(),
        0 <= g2 < 8,
        0 <= k2 < sidebar_slug_keys()[g2].len(),
        (0int, k1) != (g2, k2),
    ensures
        sidebar_slug_keys()[0][k1] != sidebar_slug_keys()[g2][k2],
{
}

proof fn lemma_slug_keys_distinct_1(k1: int, g2: int, k2: int)
    requires
        0 <= k1 < sidebar_slug_keys()[1].len(),
        0 <= g2 < 8,
        0 <= k2 < sidebar_slug_keys()[g2].len(),
        (1int, k1) != (g2, k2),
    ensures
        sidebar_slug_keys()[1][k1] != sidebar_slug_keys()[g2][k2],
{
}

proof fn lemma_slug_keys_distinct_2(k1: int, g2: int, k2: int)
    requires
        0 <= k1 < sidebar_slug_keys()[2].len(),
        0 <= g2 < 8,
        0 <= k2 < sidebar_slug_keys()[g2].len(),
        (2int, k1) != (g2, k2),
    ensures
        sidebar_slug_keys()[2][k1] != sidebar_slug_keys()[g2][k2],
{
}

proof fn lemma_slug_keys_distinct_3(k1: int, g2: int, k2: int)
    requires
        0 <= k1 < sidebar_slug_keys()[3].len(),
        0 <= g2 < 8,
        0 <= k2 < sidebar_slug_keys()[g2].len(),
        (3int, k1) != (g2, k2),
    ensures
        sidebar_slug_keys()[3][k1] != sidebar_slug_keys()[g2][k2],
{
}

proof fn lemma_slug_keys_distinct_4(k1: int, g2: int, k2: int)
    requires
        0 <= k1 < sidebar_slug_keys()[4].len(),
        0 <= g2 < 8,
        0 <= k2 < sidebar_slug_keys()[g2].len(),
        (4int, k1) != (g2, k2),
    ensures
        sidebar_slug_keys()[4][k1] != sidebar_slug_keys()[g2][k2],
{
}

proof fn lemma_slug_keys_distinct_5(k1: int, g2: int, k2: int)
    requires
        0 <= k1 < sidebar_slug_keys()[5].len(),
        0 <= g2 < 8,
        0 <= k2 < sidebar_slug_keys()[g2].len(),
        (5int, k1) != (g2, k2),
    ensures
        sidebar_slug_keys()[5][k1] != sidebar_slug_keys()[g2][k2],
{
}

proof fn lemma_slug_keys_distinct_6(k1: int, g2: int, k2: int)
    requires
        0 <= k1 < sidebar_slug_keys()[6].len(),
        0 <= g2 < 8,
        0 <= k2 < sidebar_slug_keys()[g2].len(),
        (6int, k1) != (g2, k2),
    ensures
        sidebar_slug_keys()[6][k1] != sidebar_slug_keys()[g2][k2],
{
}

proof fn lemma_slug_keys_distinct_7(k1: int, g2: int, k2: int)
    requires
        0 <= k1 < sidebar_slug_keys()[7].len(),
        0 <= g2 < 8,
        0 <= k2 < sidebar_slug_keys()[g2].len(),
        (7int, k1) != (g2, k2),
    ensures
        sidebar_slug_keys()[7][k1] != sidebar_slug_keys()[g2][k2],
{
}
/// Each tag page is offered once: the slugs of the sidebar table are
/// pairwise distinct.
pub proof fn law_sidebar_slugs_distinct(g1: int, k1: int, g2: int, k2: int)
    requires
        0 <= g1 < sidebar_groups().len(),
        0 <= k1 < sidebar_groups()[g1].1.len(),
        0 <= g2 < sidebar_groups().len(),
        0 <= k2 < sidebar_groups()[g2].1.len(),
        (g1, k1) != (g2, k2),
    ensures
        sidebar_groups()[g1].1[k1].1 != sidebar_groups()[g2].1[k2].1,
{
    lemma_slug_keys_0();
    assert(sidebar_groups()[0].1.len() == 17 && sidebar_slug_keys()[0].len() == 17);
    lemma_slug_keys_1();
    assert(sidebar_groups()[1].1.len() == 13 && sidebar_slug_keys()[1].len() == 13);
    lemma_slug_keys_2();
    assert(sidebar_groups()[2].1.len() == 11 && sidebar_slug_keys()[2].len() == 11);
    lemma_slug_keys_3();
    assert(sidebar_groups()[3].1.len() == 19 && sidebar_slug_keys()[3].len() == 19);
    lemma_slug_keys_4();
    assert(sidebar_groups()[4].1.len() == 16 && sidebar_slug_keys()[4].len() == 16);
    lemma_slug_keys_5();
    assert(sidebar_groups()[5].1.len() == 16 && sidebar_slug_keys()[5].len() == 16);
    lemma_slug_keys_6();
    assert(sidebar_groups()[6].1.len() == 13 && sidebar_slug_keys()[6].len() == 13);
    lemma_slug_keys_7();
    assert(sidebar_groups()[7].1.len() == 6 && sidebar_slug_keys()[7].len() == 6);
    assert(sidebar_groups().len() == 8);
    if g1 == 0 {
        lemma_slug_keys_distinct_0(k1, g2, k2);
    }
    if g1 == 1 {
        lemma_slug_keys_distinct_1(k1, g2, k2);
    }
    if g1 == 2 {
        lemma_slug_keys_distinct_2(k1, g2, k2);
    }
    if g1 == 3 {
        lemma_slug_keys_distinct_3(k1, g2, k2);
    }
    if g1 == 4 {
        lemma_slug_keys_distinct_4(k1, g2, k2);
    }
    if g1 == 5 {
        lemma_slug_keys_distinct_5(k1, g2, k2);
    }
    if g1 == 6 {
        lemma_slug_keys_distinct_6(k1, g2, k2);
    }
    if g1 == 7 {
        lemma_slug_keys_distinct_7(k1, g2, k2);
    }
    assert(slug_key(sidebar_groups()[g1].1[k1].1) != slug_key(sidebar_groups()[g2].1[k2].1));
}

fn group_0() -> (r: Vec<TagItem>)
    ensures
        tags_match(r@, sidebar_groups()[0].1),
{
    let mut r: Vec<TagItem> = Vec::new();
    r.push(tag("黑絲", "black-pantyhose"));
    r.push(tag("過膝襪", "knee-socks"));
    r.push(tag("運動裝", "sportswear"));
    r.push(tag("肉絲", "flesh-toned-pantyhose"));
    r.push(tag("絲襪", "pantyhose"));
    r.push(tag("眼鏡娘", "glasses"));
    r.push(tag("獸耳", "kemonomimi"));
    r.push(tag("漁網", "fishnets"));
    r.push(tag("水着", "swimsuit"));
    r.push(tag("校服", "school-uniform"));
    r.push(tag("旗袍", "cheongsam"));
    r.push(tag("婚紗", "wedding-dress"));
    r.push(tag("女僕", "maid"));
    r.push(tag("和服", "kimono"));
    r.push(tag("吊帶襪", "stockings"));
    r.push(tag("兔女郎", "bunny-girl"));
    r.push(tag("Cosplay", "Cosplay"));
    r
}

fn group_1() -> (r: Vec<TagItem>)
    ensures
        tags_match(r@, sidebar_groups()[1].1),
{
    let mut r: Vec<TagItem> = Vec::new();
    r.push(tag("黑肉", "suntan"));
    r.push(tag("長身", "tall"));
    r.push(tag("軟體", "flexible-body"));
    r.push(tag("貧乳", "small-tits"));
    r.push(tag("美腿", "beautiful-leg"));
    r.push(tag("美尻", "beautiful-butt"));
    r.push(tag("紋身", "tattoo"));
    r.push(tag("短髮", "short-hair"));
    r.push(tag("白虎", "hairless-pussy"));
    r.push(tag("熟女", "mature-woman"));
    r.push(tag("巨乳", "big-tits"));
    r.push(tag("少女", "girl"));
    r.push(tag("嬌小", "dainty"));
    r
}

fn group_2() -> (r: Vec<TagItem>)
    ensures
        tags_match(r@, sidebar_groups()[2].1),
{
    let mut r: Vec<TagItem> = Vec::new();
    r.push(tag("顏射", "facial"));
    r.push(tag("腳交", "footjob"));
    r.push(tag("肛交", "anal-sex"));
    r.push(tag("痙攣", "spasms"));
    r.push(tag("潮吹", "squirting"));
    r.push(tag("深喉", "deep-throat"));
    r.push(tag("接吻", "kiss"));
    r.push(tag("口爆", "cum-in-mouth"));
    r.push(tag("口交", "blowjob"));
    r.push(tag("乳交", "tit-wank"));
    r.push(tag("中出", "creampie"));
    r
}

fn group_3() -> (r: Vec<TagItem>)
    ensures
        tags_match(r@, sidebar_groups()[3].1),
{
    let mut r: Vec<TagItem> = Vec::new();
    r.push(tag("露出", "outdoor"));
    r.push(tag("集團進犯", "gang-intrusion"));
    r.push(tag("進犯", "intrusion"));
    r.push(tag("調教", "tune"));
    r.push(tag("綑綁", "bondage"));
    r.push(tag("瞬間插入", "quickie"));
    r.push(tag("痴漢", "chikan"));
    r.push(tag("痴女", "chizyo"));
    r.push(tag("男M", "masochism-guy"));
    r.push(tag("泥醉", "crapulence"));
    r.push(tag("泡姬", "soapland"));
    r.push(tag("母乳", "breast-milk"));
    r.push(tag("放尿", "piss"));
    r.push(tag("按摩", "massage"));
    r.push(tag("多P", "groupsex"));
    r.push(tag("刑具", "grip"));
    r.push(tag("凌辱", "insult"));
    r.push(tag("一日十回", "10-times-a-day"));
    r.push(tag("3P", "3p"));
    r
}

fn group_4() -> (r: Vec<TagItem>)
    ensures
        tags_match(r@, sidebar_groups()[4].1),
{
    let mut r: Vec<TagItem> = Vec::new();
    r.push(tag("黑人", "black"));
    r.push(tag("醜男", "ugly-man"));
    r.push(tag("誘惑", "temptation"));
    r.push(tag("親屬", "kinship"));
    r.push(tag("童貞", "virginity"));
    r.push(tag("時間停止", "time-stop"));
    r.push(tag("復仇", "avenge"));
    r.push(tag("年齡差", "age-difference"));
    r.push(tag("巨漢", "giant"));
    r.push(tag("媚藥", "love-potion"));
    r.push(tag("夫目前犯", "sex-beside-husband"));
    r.push(tag("出軌", "affair"));
    r.push(tag("催眠", "hypnosis"));
    r.push(tag("偷拍", "private-cam"));
    r.push(tag("下雨天", "rainy-day"));
    r.push(tag("NTR", "ntr"));
    r
}

fn group_5() -> (r: Vec<TagItem>)
    ensures
        tags_match(r@, sidebar_groups()[5].1),
{
    let mut r: Vec<TagItem> = Vec::new();
    r.push(tag("風俗娘", "club-hostess-and-sex-worker"));
    r.push(tag("醫生", "doctor"));
    r.push(tag("逃犯", "fugitive"));
    r.push(tag("護士", "nurse"));
    r.push(tag("老師", "teacher"));
    r.push(tag("空姐", "flight-attendant"));
    r.push(tag("球隊經理", "team-manager"));
    r.push(tag("未亡人", "widow"));
    r.push(tag("搜查官", "detective"));
    r.push(tag("情侶", "couple"));
    r.push(tag("家政婦", "housewife"));
    r.push(tag("家庭教師", "private-teacher"));
    r.push(tag("偶像", "idol"));
    r.push(tag("人妻", "wife"));
    r.push(tag("主播", "female-anchor"));
    r.push(tag("OL", "ol"));
    r
}

fn group_6() -> (r: Vec<TagItem>)
    ensures
        tags_match(r@, sidebar_groups()[6].1),
{
    let mut r: Vec<TagItem> = Vec::new();
    r.push(tag("魔鏡號", "magic-mirror"));
    r.push(tag("電車", "tram"));
    r.push(tag("處女", "first-night"));
    r.push(tag("監獄", "prison"));
    r.push(tag("溫泉", "hot-spring"));
    r.push(tag("洗浴場", "bathing-place"));
    r.push(tag("泳池", "swimming-pool"));
    r.push(tag("汽車", "car"));
    r.push(tag("廁所", "toilet"));
    r.push(tag("學校", "school"));
    r.push(tag("圖書館", "library"));
    r.push(tag("健身房", "gym-room"));
    r.push(tag("便利店", "store"));
    r
}

fn group_7() -> (r: Vec<TagItem>)
    ensures
        tags_match(r@, sidebar_groups()[7].1),
{
    let mut r: Vec<TagItem> = Vec::new();
    r.push(tag("錄像", "video-recording"));
    r.push(tag("處女作/引退作", "debut-retires"));
    r.push(tag("綜藝", "variety-show"));
    r.push(tag("節日主題", "festival"));
    r.push(tag("感謝祭", "thanksgiving"));
    r.push(tag("4小時以上", "more-than-4-hours"));
    r
}

/// The sidebar tags, grouped, in display order.
pub fn get_sidebar_tags() -> (r: Vec<(String, Vec<TagItem>)>)
    ensures
        r@.len() == sidebar_groups().len(),
        forall|g: int|
            0 <= g < r@.len() ==> #[trigger] r@[g].0@ == sidebar_groups()[g].0 && tags_match(
                r@[g].1@,
                sidebar_groups()[g].1,
            ),
{
    let mut r: Vec<(String, Vec<TagItem>)> = Vec::new();
    r.push(("衣著".to_string(), group_0()));
    r.push(("身材".to_string(), group_1()));
    r.push(("交合".to_string(), group_2()));
    r.push(("玩法".to_string(), group_3()));
    r.push(("劇情".to_string(), group_4()));
    r.push(("角色".to_string(), group_5()));
    r.push(("地點".to_string(), group_6()));
    r.push(("雜項".to_string(), group_7()));
    r
}


pub open spec fn categories_view(v: Seq<Category>) -> Seq<(Seq<char>, Seq<char>)> {
    v.map_values(|c: Category| (c.name@, c.url@))
}

/// The categories always offered, in the listing's language.
pub open spec fn fixed_categories(lang: Seq<char>) -> Seq<(Seq<char>, Seq<char>)> {
    seq![
        ("最近更新"@, spec_with_lang("https://jable.tv/latest-updates/"@, lang)),
        ("熱門影片"@, spec_with_lang("https://jable.tv/hot/"@, lang)),
        ("新片上架"@, spec_with_lang("https://jable.tv/new-release/"@, lang)),
    ]
}

/// The categories always offered (see `fixed_categories`).
pub fn fixed_category_list(lang: &str) -> (r: Vec<Category>)
    ensures
        categories_view(r@) == fixed_categories(lang@),
{
    let mut v: Vec<Category> = Vec::new();
    v.push(Category { name: "最近更新".to_string(), url: with_lang("https://jable.tv/latest-updates/", lang) });
    v.push(Category { name: "熱門影片".to_string(), url: with_lang("https://jable.tv/hot/", lang) });
    v.push(Category { name: "新片上架".to_string(), url: with_lang("https://jable.tv/new-release/", lang) });
    assert(categories_view(v@) =~= fixed_categories(lang@));
    v
}

/// A category link's name: its text without the video count
/// (`1,234 部影片`, removed by the regex crate), trimmed.
pub open spec fn category_name(txt: Seq<char>) -> Seq<char> {
    match regex_replaced_all("\\d[\\d,]*\\s*部影片"@, text::trim(txt), seq![]) {
        Some(n) => text::trim(n),
        None => text::trim(txt),
    }
}

/// The categories after one more link of the categories page: a link to a
/// category (not the index itself) with a text gives a category named by
/// its text, in the listing's language.
pub open spec fn category_step(
    prev: Seq<(Seq<char>, Seq<char>)>,
    href: Option<Seq<char>>,
    txt: Seq<char>,
    lang: Seq<char>,
) -> Seq<(Seq<char>, Seq<char>)> {
    let h = match href {
        Some(h) => h,
        None => seq![],
    };
    if text::contains(h, "/categories/"@) && h != "https://jable.tv/categories/"@ && text::trim(txt).len() > 0
        && category_name(txt).len() > 0 {
        prev.push((category_name(txt), spec_with_lang(h, lang)))
    } else {
        prev
    }
}

pub open spec fn page_categories(hrefs: Seq<Option<Seq<char>>>, texts: Seq<Seq<char>>, lang: Seq<char>) -> Seq<
    (Seq<char>, Seq<char>),
>
    decreases hrefs.len(),
{
    if hrefs.len() == 0 {
        seq![]
    } else {
        category_step(
            page_categories(hrefs.drop_last(), texts.drop_last(), lang),
            hrefs.last(),
            texts[hrefs.len() - 1],
            lang,
        )
    }
}

/// The categories of the Jable categories page `html`, after the fixed
/// ones.
pub fn categories_from_page(html: &str, lang: &str) -> (r: Vec<Category>)
    ensures
        categories_view(r@) == fixed_categories(lang@) + page_categories(
            dom_nodes_attr(html@, "a[href*=\"/categories/\"]"@, "href"@),
            dom_nodes_text(html@, "a[href*=\"/categories/\"]"@),
            lang@,
        ),
{
    let mut out = fixed_category_list(lang);
    let hrefs = nodes_attr(html, "a[href*=\"/categories/\"]", "href");
    let texts = nodes_text(html, "a[href*=\"/categories/\"]");
    let ghost hv = opt_strings_view(hrefs@);
    let ghost tv = strings_view(texts@);
    let mut i: usize = 0;
    assert(hv.take(0) =~= Seq::<Option<Seq<char>>>::empty());
    assert(fixed_categories(lang@) + page_categories(hv.take(0), tv.take(0), lang@) =~= fixed_categories(lang@));
    while i < hrefs.len()
        invariant
            i <= hrefs@.len(),
            hrefs@.len() == texts@.len(),
            hv == opt_strings_view(hrefs@),
            tv == strings_view(texts@),
            categories_view(out@) == fixed_categories(lang@) + page_categories(hv.take(i as int), tv.take(i as int), lang@),
        decreases hrefs.len() - i,
    {
        proof {
            assert(hv.take(i + 1).drop_last() =~= hv.take(i as int));
            assert(tv.take(i + 1).drop_last() =~= tv.take(i as int));
            assert(hv.take(i + 1).last() == hv[i as int]);
            assert(tv.take(i + 1)[i as int] == tv[i as int]);
        }
        let h = match &hrefs[i] {
            Some(h) => h.clone(),
            None => String::new(),
        };
        let tc = chars_of(texts[i].as_str());
        assert(tc@ == tv[i as int]);
        assert(h@ == (match hv[i as int] {
            Some(x) => x,
            None => seq![],
        }));
        let tt = trim_at(&tc);
        let hc = chars_of(h.as_str());
        if contains_at(&hc, &chars_of("/categories/")) && !eq(&hc, &chars_of("https://jable.tv/categories/")) && tt.len() > 0 {
            let tts = string_of(tt);
            proof {
                reveal_strlit("");
                assert(""@ =~= Seq::<char>::empty());
            }
            let name: String = match regex_replace_all("\\d[\\d,]*\\s*部影片", tts.as_str(), "") {
                Some(n) => {
                    let nc = chars_of(n.as_str());
                    string_of(trim_at(&nc))
                },
                None => tts,
            };
            assert(name@ == category_name(tv[i as int]));
            if !name.as_str().is_empty() {
                let ghost before = categories_view(out@);
                let url = with_lang(h.as_str(), lang);
                out.push(Category { name, url });
                assert(categories_view(out@) =~= before.push((category_name(tv[i as int]), spec_with_lang(h@, lang@))));
            }
        }
        proof {
            assert(fixed_categories(lang@) + page_categories(hv.take(i + 1), tv.take(i + 1), lang@) =~= categories_view(out@));
        }
        i += 1;
    }
    assert(hv.take(i as int) =~= hv);
    assert(tv.take(i as int) =~= tv);
    out
}

/// The Jable search page of a keyword, in the listing's language.
pub fn search_url(keyword: &str, lang: &str) -> (r: String)
    ensures
        r@ == spec_with_lang("https://jable.tv/search/?q="@ + form_urlencoded(vstd::utf8::encode_utf8(keyword@)), lang@),
{
    let enc = form_urlencode(keyword);
    let base = string_of(&concat(&chars_of("https://jable.tv/search/?q="), &chars_of(enc.as_str())));
    with_lang(base.as_str(), lang)
}

} // verus!
