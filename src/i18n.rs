//! Languages of the interface and the table of translated strings.

use crate::text::text_eq;
use crate::history::{entry_views, lemma_entry_views_index, lemma_entry_views_upsert};
use crate::textmap::{lookup, upsert, TextMap};
use vstd::prelude::*;

verus! {

/// A language of the interface.
#[derive(PartialEq, Eq, Structural, Clone, Copy, Debug, Hash)]
pub enum Language {
    /// Follow the system's language.
    Auto,
    SimplifiedChinese,
    TraditionalChineseTW,
    TraditionalChineseHK,
    English,
    Russian,
    Cat,
}

pub open spec fn code_of(l: Language) -> Seq<char> {
    match l {
        Language::Auto => "auto"@,
        Language::SimplifiedChinese => "zh-CN"@,
        Language::TraditionalChineseTW => "zh-TW"@,
        Language::TraditionalChineseHK => "zh-HK"@,
        Language::English => "en"@,
        Language::Russian => "ru"@,
        Language::Cat => "cat"@,
    }
}

pub open spec fn display_name_of(l: Language) -> Seq<char> {
    match l {
        Language::Auto => "Auto"@,
        Language::SimplifiedChinese => "简体中文"@,
        Language::TraditionalChineseTW => "繁体中文"@,
        Language::TraditionalChineseHK => "繁体中文"@,
        Language::English => "English"@,
        Language::Russian => "Русский"@,
        Language::Cat => "喵语"@,
    }
}

/// The language a system locale stands for; English when it is not one of
/// the Chinese or Russian locales.
pub open spec fn language_of_locale(locale: Seq<char>) -> Language {
    if locale == "zh-CN"@ || locale == "zh-SG"@ || locale == "zh"@ {
        Language::SimplifiedChinese
    } else if locale == "zh-TW"@ || locale == "zh-HK"@ || locale == "zh-MO"@ {
        Language::TraditionalChineseTW
    } else if locale == "ru"@ || locale == "ru-RU"@ {
        Language::Russian
    } else {
        Language::English
    }
}

/// Relies on `sys_locale::get_locale`: the system's preferred locale, if
/// it can be found. It depends on the machine, so nothing is said of it.
#[verifier::external_body]
fn system_locale() -> (r: Option<String>) {
    sys_locale::get_locale()
}

impl Language {
    /// The language's code.
    pub fn code(&self) -> (r: &'static str)
        ensures
            r@ == code_of(*self),
    {
        match self {
            Language::Auto => "auto",
            Language::SimplifiedChinese => "zh-CN",
            Language::TraditionalChineseTW => "zh-TW",
            Language::TraditionalChineseHK => "zh-HK",
            Language::English => "en",
            Language::Russian => "ru",
            Language::Cat => "cat",
        }
    }

    /// The language's name, written in that language.
    pub fn display_name(&self) -> (r: &'static str)
        ensures
            r@ == display_name_of(*self),
    {
        match self {
            Language::Auto => "Auto",
            Language::SimplifiedChinese => "简体中文",
            Language::TraditionalChineseTW => "繁体中文",
            Language::TraditionalChineseHK => "繁体中文",
            Language::English => "English",
            Language::Russian => "Русский",
            Language::Cat => "喵语",
        }
    }

    /// Every language, `Auto` first.
    pub fn all() -> (r: Vec<Language>)
        ensures
            r@ == seq![
                Language::Auto,
                Language::SimplifiedChinese,
                Language::TraditionalChineseTW,
                Language::TraditionalChineseHK,
                Language::English,
                Language::Russian,
                Language::Cat,
            ],
    {
        let r = vec![
            Language::Auto,
            Language::SimplifiedChinese,
            Language::TraditionalChineseTW,
            Language::TraditionalChineseHK,
            Language::English,
            Language::Russian,
            Language::Cat,
        ];
        assert(r@ =~= seq![
            Language::Auto,
            Language::SimplifiedChinese,
            Language::TraditionalChineseTW,
            Language::TraditionalChineseHK,
            Language::English,
            Language::Russian,
            Language::Cat,
        ]);
        r
    }

    /// The language a system locale stands for.
    pub fn for_locale(locale: &str) -> (r: Language)
        ensures
            r == language_of_locale(locale@),
    {
        if text_eq(locale, "zh-CN") || text_eq(locale, "zh-SG") || text_eq(locale, "zh") {
            Language::SimplifiedChinese
        } else if text_eq(locale, "zh-TW") || text_eq(locale, "zh-HK") || text_eq(locale, "zh-MO") {
            Language::TraditionalChineseTW
        } else if text_eq(locale, "ru") || text_eq(locale, "ru-RU") {
            Language::Russian
        } else {
            Language::English
        }
    }

    /// The language of the system's locale; English when the locale cannot
    /// be found.
    pub fn detect_system_language() -> (r: Language)
        ensures
            r != Language::Auto && r != Language::TraditionalChineseHK && r != Language::Cat,
    {
        match system_locale() {
            Some(l) => Language::for_locale(l.as_str()),
            None => Language::for_locale("en"),
        }
    }
}

/// Each entry of the JSON object `json`, its value when it is a string;
/// `None` when `json` is not a JSON object.
pub uninterp spec fn json_object_entries(json: Seq<char>) -> Option<
    Seq<(Seq<char>, Option<Seq<char>>)>,
>;

pub open spec fn json_entries_view(r: Option<Vec<(String, Option<String>)>>) -> Option<
    Seq<(Seq<char>, Option<Seq<char>>)>,
> {
    match r {
        Some(v) => Some(
            v@.map_values(|e: (String, Option<String>)| (e.0@, crate::record::opt_text(e.1))),
        ),
        None => None,
    }
}

/// Relies on `serde_json::from_str` to read `json` as an object and on
/// `serde_json::Value::as_str` to read each of its values as a string.
#[verifier::external_body]
fn read_json_object(json: &str) -> (r: Option<Vec<(String, Option<String>)>>)
    ensures
        json_entries_view(r) == json_object_entries(json@),
{
    let m = serde_json::from_str::<serde_json::Map<String, serde_json::Value>>(json).ok()?;
    Some(m.into_iter().map(|(k, v)| (k, v.as_str().map(|t| t.to_owned()))).collect())
}

/// The position of a language in `Language::all`.
pub open spec fn lang_index(l: Language) -> nat {
    match l {
        Language::Auto => 0,
        Language::SimplifiedChinese => 1,
        Language::TraditionalChineseTW => 2,
        Language::TraditionalChineseHK => 3,
        Language::English => 4,
        Language::Russian => 5,
        Language::Cat => 6,
    }
}

fn lang_position(l: Language) -> (r: usize)
    ensures
        r == lang_index(l),
{
    match l {
        Language::Auto => 0,
        Language::SimplifiedChinese => 1,
        Language::TraditionalChineseTW => 2,
        Language::TraditionalChineseHK => 3,
        Language::English => 4,
        Language::Russian => 5,
        Language::Cat => 6,
    }
}

/// The text of `key` in a language whose strings are `table`: the
/// translation when there is one, else the key itself.
pub open spec fn translation(table: Seq<(Seq<char>, Seq<char>)>, key: Seq<char>) -> Seq<char> {
    match lookup(table, key) {
        Some(t) => t,
        None => key,
    }
}

/// `table` with the string entries of `es` added in order.
pub open spec fn add_entries(
    table: Seq<(Seq<char>, Seq<char>)>,
    es: Seq<(Seq<char>, Option<Seq<char>>)>,
) -> Seq<(Seq<char>, Seq<char>)>
    decreases es.len(),
{
    if es.len() == 0 {
        table
    } else {
        let t = add_entries(table, es.drop_last());
        match es.last().1 {
            Some(x) => upsert(t, es.last().0, x),
            None => t,
        }
    }
}

/// Translated strings, one table for each language.
pub struct Translations {
    strings: Vec<TextMap<String>>,
}

impl Translations {
    /// The strings of language `l`.
    pub closed spec fn table(&self, l: Language) -> Seq<(Seq<char>, Seq<char>)> {
        entry_views(self.strings@[lang_index(l) as int].view())
    }

    pub closed spec fn wf(&self) -> bool {
        &&& self.strings@.len() == 7
        &&& forall|i: int| 0 <= i < 7 ==> #[trigger] self.strings@[i].wf()
    }

    /// A table without any translation.
    pub fn new() -> (r: Self)
        ensures
            r.wf(),
            forall|l: Language| #[trigger] r.table(l) == Seq::<(Seq<char>, Seq<char>)>::empty(),
    {
        let mut strings: Vec<TextMap<String>> = Vec::new();
        let mut i: usize = 0;
        while i < 7
            invariant
                i <= 7,
                strings@.len() == i,
                forall|j: int| 0 <= j < i ==> #[trigger] strings@[j].wf() && strings@[j].view()
                    == Seq::<(Seq<char>, String)>::empty(),
            decreases 7 - i,
        {
            let t = TextMap::new();
            let ghost before = strings@;
            strings.push(t);
            assert forall|j: int| 0 <= j < i + 1 implies #[trigger] strings@[j].wf()
                && strings@[j].view() == Seq::<(Seq<char>, String)>::empty() by {
                if j < i {
                    assert(strings@[j] == before[j]);
                }
            }
            i = i + 1;
        }
        let r = Translations { strings };
        assert forall|l: Language| #[trigger] r.table(l) == Seq::<(Seq<char>, Seq<char>)>::empty() by {
            assert(lang_index(l) < 7);
            assert(r.strings@[lang_index(l) as int].wf());
            assert(r.table(l) =~= Seq::<(Seq<char>, Seq<char>)>::empty());
        }
        r
    }

    /// Adds the string entries of the JSON object `json` as translations into
    /// `lang`; entries whose value is not a string are passed over. Returns
    /// whether `json` is a JSON object.
    pub fn load_from_json(&mut self, lang: Language, json: &str) -> (r: bool)
        requires
            old(self).wf(),
        ensures
            final(self).wf(),
            r == json_object_entries(json@) is Some,
            json_object_entries(json@) matches Some(es) ==> final(self).table(lang) == add_entries(
                old(self).table(lang),
                es,
            ),
            json_object_entries(json@) is None ==> *final(self) == *old(self),
            forall|l: Language| l != lang ==> #[trigger] final(self).table(l) == old(self).table(l),
    {
        let entries = match read_json_object(json) {
            Some(e) => e,
            None => return false,
        };
        let k = lang_position(lang);
        let ghost es = json_entries_view(Some(entries))->Some_0;
        let mut i: usize = 0;
        while i < entries.len()
            invariant
                self.wf(),
                k == lang_index(lang),
                es == entries@.map_values(
                    |e: (String, Option<String>)| (e.0@, crate::record::opt_text(e.1)),
                ),
                self.table(lang) == add_entries(old(self).table(lang), es.subrange(0, i as int)),
                i <= entries@.len(),
                self.strings@.len() == old(self).strings@.len(),
                forall|j: int| 0 <= j < 7 && j != k ==> #[trigger] self.strings@[j] == old(
                    self,
                ).strings@[j],
            decreases entries@.len() - i,
        {
            proof {
                assert(es.subrange(0, i + 1).drop_last() =~= es.subrange(0, i as int));
                assert(es[i as int] == (entries@[i as int].0@, crate::record::opt_text(
                    entries@[i as int].1,
                )));
            }
            if let Some(t) = &entries[i].1 {
                let ghost before = self.strings@;
                assert(self.strings@[k as int].wf());
                let key = entries[i].0.clone();
                let text = t.clone();
                proof {
                    lemma_entry_views_upsert(before[k as int].view(), key@, text);
                }
                self.strings[k].insert(key, text);
                assert forall|j: int| 0 <= j < 7 implies #[trigger] self.strings@[j].wf() by {
                    if j != k {
                        assert(self.strings@[j] == before[j]);
                    }
                }
            }
            i = i + 1;
        }
        assert(es.subrange(0, entries@.len() as int) =~= es);
        assert forall|l: Language| l != lang implies #[trigger] self.table(l) == old(self).table(
            l,
        ) by {
            assert(self.strings@[lang_index(l) as int] == old(self).strings@[lang_index(l) as int]);
        }
        true
    }

    /// The text of `key` in `lang`: its translation, or `key` itself.
    pub fn get(&self, key: &str, lang: Language) -> (r: String)
        requires
            self.wf(),
        ensures
            r@ == translation(self.table(lang), key@),
    {
        let k = lang_position(lang);
        proof {
            lemma_entry_views_index(self.strings@[k as int].view(), key@, 0);
            crate::textmap::lemma_key_index_from(self.strings@[k as int].view(), key@, 0);
        }
        match self.strings[k].get(key) {
            Some(t) => t.clone(),
            None => key.to_owned(),
        }
    }
}

impl Default for Translations {
    fn default() -> (r: Self)
        ensures
            r.wf(),
            forall|l: Language| #[trigger] r.table(l) == Seq::<(Seq<char>, Seq<char>)>::empty(),
    {
        Translations::new()
    }
}

} // verus!
