//! Translations: TOML translation files flattened into dotted keys, per-language tables, and
//! lookups that fall back to English and then to the key itself.
use vstd::prelude::*;
use crate::text::{owned, push_str, str_eq};

verus! {

/// Language information shown in the language picker.
#[derive(Debug, Clone)]
pub struct LanguageInfo {
    pub value: String,
    pub name: String,
    pub icon: String,
}

/// A TOML document, as far as translations read it.
#[derive(Debug)]
pub enum TomlValue {
    Table(Vec<(String, TomlValue)>),
    Str(String),
    Int(i64),
    Bool(bool),
    /// Floats, dates and arrays, which translations skip.
    Other,
}

/// The content of a TOML document.
pub enum TomlView {
    Table(Seq<(Seq<char>, TomlView)>),
    Str(Seq<char>),
    Int(int),
    Bool(bool),
    Other,
}

pub open spec fn toml_view(v: TomlValue) -> TomlView
    decreases v,
{
    match v {
        TomlValue::Table(m) => TomlView::Table(toml_members_view(m@)),
        TomlValue::Str(s) => TomlView::Str(s@),
        TomlValue::Int(i) => TomlView::Int(i as int),
        TomlValue::Bool(b) => TomlView::Bool(b),
        TomlValue::Other => TomlView::Other,
    }
}

pub open spec fn toml_members_view(s: Seq<(String, TomlValue)>) -> Seq<(Seq<char>, TomlView)>
    decreases s,
{
    if s.len() == 0 {
        Seq::empty()
    } else {
        seq![(s[0].0@, toml_view(s[0].1))] + toml_members_view(s.subrange(1, s.len() as int))
    }
}

impl View for TomlValue {
    type V = TomlView;

    open spec fn view(&self) -> TomlView {
        toml_view(*self)
    }
}

#[verifier::external_type_specification]
#[verifier::external_body]
pub struct ExTomlValue(toml::Value);

/// The content of the `toml::Value` that `toml::from_str` reads from a text (tables in the
/// order the `toml::Table` yields their entries; floats, dates and arrays as `Other`), or `None`
/// where it rejects the text.
pub uninterp spec fn toml_parsed(text: Seq<char>) -> Option<TomlView>;

/// This library's document with the same content as a `toml::Value`, entry for entry in the
/// table's order; floats, dates and arrays become `Other`. Used only inside the call below;
/// nothing is claimed of it.
#[verifier::external_body]
fn from_toml(v: toml::Value) -> TomlValue {
    match v {
        toml::Value::Table(t) => TomlValue::Table(t.into_iter().map(|(k, x)| (k, from_toml(x))).collect()),
        toml::Value::String(s) => TomlValue::Str(s),
        toml::Value::Integer(i) => TomlValue::Int(i),
        toml::Value::Boolean(b) => TomlValue::Bool(b),
        _ => TomlValue::Other,
    }
}

/// Reads a TOML document (calls `toml::from_str::<toml::Value>` and converts the value); the
/// outcome is claimed to be `toml_parsed` of the text.
#[verifier::external_body]
fn toml_from_str(text: &str) -> (r: Option<TomlValue>)
    ensures
        match r {
            Some(v) => toml_parsed(text@) == Some(v@),
            None => toml_parsed(text@) is None,
        },
{
    toml::from_str::<toml::Value>(text).ok().map(from_toml)
}

/// The dotted key of a table entry: the entry's key under `prefix`.
pub open spec fn child_key(prefix: Seq<char>, key: Seq<char>) -> Seq<char> {
    if prefix.len() == 0 { key } else { prefix + "."@ + key }
}

/// The dotted keys and texts of a document in table order: strings as they are, whole numbers
/// and booleans as text, other values left out.
pub open spec fn flat_entries(v: TomlView, prefix: Seq<char>) -> Seq<(Seq<char>, Seq<char>)>
    decreases v,
{
    match v {
        TomlView::Table(m) => flat_members(m, prefix),
        TomlView::Str(s) => seq![(prefix, s)],
        TomlView::Int(i) => seq![(prefix, crate::text::int_text(i))],
        TomlView::Bool(b) => seq![(prefix, if b { "true"@ } else { "false"@ })],
        TomlView::Other => Seq::empty(),
    }
}

pub open spec fn flat_members(m: Seq<(Seq<char>, TomlView)>, prefix: Seq<char>) -> Seq<(Seq<char>, Seq<char>)>
    decreases m,
{
    if m.len() == 0 {
        Seq::empty()
    } else {
        flat_entries(m[0].1, child_key(prefix, m[0].0)) + flat_members(m.subrange(1, m.len() as int), prefix)
    }
}

proof fn lemma_toml_members_view(s: Seq<(String, TomlValue)>)
    ensures
        toml_members_view(s).len() == s.len(),
        forall|i: int| 0 <= i < s.len() ==> #[trigger] toml_members_view(s)[i] == (s[i].0@, toml_view(s[i].1)),
    decreases s.len(),
{
    if s.len() > 0 {
        let t = s.subrange(1, s.len() as int);
        lemma_toml_members_view(t);
        assert forall|i: int| 0 <= i < s.len() implies #[trigger] toml_members_view(s)[i] == (s[i].0@, toml_view(s[i].1)) by {
            if i > 0 {
                assert(t[i - 1] == s[i]);
            }
        }
    }
}

proof fn lemma_flat_members_step(m: Seq<(Seq<char>, TomlView)>, prefix: Seq<char>, i: int)
    requires
        0 <= i < m.len(),
    ensures
        flat_members(m.subrange(i, m.len() as int), prefix) == flat_entries(m[i].1, child_key(prefix, m[i].0))
            + flat_members(m.subrange(i + 1, m.len() as int), prefix),
{
    let t = m.subrange(i, m.len() as int);
    assert(t[0] == m[i]);
    assert(t.subrange(1, t.len() as int) =~= m.subrange(i + 1, m.len() as int));
}

fn child(prefix: &str, key: &str) -> (r: String)
    ensures
        r@ == child_key(prefix@, key@),
{
    if prefix.is_empty() {
        owned(key)
    } else {
        let mut s = String::new();
        push_str(&mut s, prefix);
        push_str(&mut s, ".");
        push_str(&mut s, key);
        s
    }
}

/// Appends the dotted entries of a document (see `flat_entries`).
fn flatten_into(v: &TomlValue, prefix: &str, out: &mut Vec<(String, String)>)
    ensures
        pairs_view(final(out)@) == pairs_view(old(out)@) + flat_entries(v@, prefix@),
    decreases v,
{
    let ghost start = pairs_view(out@);
    match v {
        TomlValue::Table(members) => {
            let ghost m = toml_members_view(members@);
            proof {
                lemma_toml_members_view(members@);
                assert(m.subrange(0, m.len() as int) =~= m);
            }
            let mut i: usize = 0;
            while i < members.len()
                invariant
                    i <= members.len(),
                    *v == TomlValue::Table(*members),
                    m == toml_members_view(members@),
                    m.len() == members@.len(),
                    forall|k: int| 0 <= k < members@.len() ==> #[trigger] m[k] == (members@[k].0@, toml_view(members@[k].1)),
                    start + flat_members(m, prefix@) == pairs_view(out@) + flat_members(m.subrange(i as int, m.len() as int), prefix@),
                decreases members.len() - i,
            {
                proof {
                    lemma_flat_members_step(m, prefix@, i as int);
                }
                assert(decreases_to!(*v => (*v)->Table_0));
                assert(decreases_to!(*members => members@));
                assert(decreases_to!(members@ => members@[i as int]));
                assert(decreases_to!(members@[i as int] => members@[i as int].1));
                let key = child(prefix, members[i].0.as_str());
                let ghost before = pairs_view(out@);
                flatten_into(&members[i].1, key.as_str(), out);
                assert(start + flat_members(m, prefix@) =~= pairs_view(out@) + flat_members(m.subrange(i + 1, m.len() as int), prefix@));
                i = i + 1;
            }
            assert(flat_members(m.subrange(i as int, m.len() as int), prefix@) =~= Seq::<(Seq<char>, Seq<char>)>::empty());
            assert(pairs_view(out@) =~= start + flat_members(m, prefix@));
        },
        TomlValue::Str(s) => {
            out.push((owned(prefix), owned(s.as_str())));
            assert(pairs_view(out@) =~= start + flat_entries(v@, prefix@));
        },
        TomlValue::Int(n) => {
            out.push((owned(prefix), crate::text::i64_text(*n)));
            assert(pairs_view(out@) =~= start + flat_entries(v@, prefix@));
        },
        TomlValue::Bool(b) => {
            out.push((owned(prefix), if *b { owned("true") } else { owned("false") }));
            assert(pairs_view(out@) =~= start + flat_entries(v@, prefix@));
        },
        TomlValue::Other => {
            assert(pairs_view(out@) =~= start + flat_entries(v@, prefix@));
        },
    }
}

/// The views of key-text pairs.
pub open spec fn pairs_view(p: Seq<(String, String)>) -> Seq<(Seq<char>, Seq<char>)> {
    p.map_values(|x: (String, String)| (x.0@, x.1@))
}

/// Flattens a document into dotted keys (see `flat_entries`).
pub fn flatten_toml(v: &TomlValue) -> (r: Vec<(String, String)>)
    ensures
        pairs_view(r@) == flat_entries(v@, Seq::empty()),
{
    let mut out: Vec<(String, String)> = Vec::new();
    assert(pairs_view(out@) =~= Seq::<(Seq<char>, Seq<char>)>::empty());
    proof {
        reveal_strlit("");
        assert(""@ =~= Seq::<char>::empty());
    }
    flatten_into(v, "", &mut out);
    assert(pairs_view(out@) =~= flat_entries(v@, Seq::empty()));
    out
}

/// Reads a translation file into its dotted entries; none when it is not TOML.
pub fn parse_toml_translations(content: &str) -> (r: Option<Vec<(String, String)>>)
    ensures
        match r {
            Some(e) => toml_parsed(content@) matches Some(d) && pairs_view(e@) == flat_entries(d, Seq::empty()),
            None => toml_parsed(content@) is None,
        },
{
    match toml_from_str(content) {
        Some(doc) => Some(flatten_toml(&doc)),
        None => None,
    }
}

// ---------------------------------------------------------------------------------------------
// Lookups
// ---------------------------------------------------------------------------------------------

/// The text of a key in a language's entries: the last entry of the key, as a map filled in
/// order keeps it.
pub open spec fn entry_text(entries: Seq<(Seq<char>, Seq<char>)>, key: Seq<char>) -> Option<Seq<char>>
    decreases entries.len(),
{
    if entries.len() == 0 {
        None
    } else if entries.last().0 == key {
        Some(entries.last().1)
    } else {
        entry_text(entries.drop_last(), key)
    }
}

/// The text of a key, if the entries hold it.
pub fn find_entry(entries: &Vec<(String, String)>, key: &str) -> (r: Option<String>)
    ensures
        crate::text::opt_text(r) == entry_text(pairs_view(entries@), key@),
{
    let mut i: usize = entries.len();
    let ghost p = pairs_view(entries@);
    assert(p.take(p.len() as int) =~= p);
    while i > 0
        invariant
            i <= entries.len(),
            p == pairs_view(entries@),
            entry_text(p, key@) == entry_text(p.take(i as int), key@),
        decreases i,
    {
        let ghost t = p.take(i as int);
        assert(t.drop_last() =~= p.take(i - 1));
        assert(t.last() == (entries@[i - 1].0@, entries@[i - 1].1@));
        if str_eq(entries[i - 1].0.as_str(), key) {
            return Some(owned(entries[i - 1].1.as_str()));
        }
        i = i - 1;
    }
    None
}

/// One language's table.
#[derive(Debug)]
pub struct LanguageTable {
    pub lang: String,
    pub entries: Vec<(String, String)>,
}

/// The views of language tables.
pub open spec fn tables_view(t: Seq<LanguageTable>) -> Seq<(Seq<char>, Seq<(Seq<char>, Seq<char>)>)> {
    t.map_values(|x: LanguageTable| (x.lang@, pairs_view(x.entries@)))
}

/// The entries of a language, if it has a table (the last one stored for it).
pub open spec fn table_of(tables: Seq<(Seq<char>, Seq<(Seq<char>, Seq<char>)>)>, lang: Seq<char>) -> Option<Seq<(Seq<char>, Seq<char>)>>
    decreases tables.len(),
{
    if tables.len() == 0 {
        None
    } else if tables.last().0 == lang {
        Some(tables.last().1)
    } else {
        table_of(tables.drop_last(), lang)
    }
}

/// The translation of a key in a language: its text there, else its English text, else the key.
pub open spec fn translation(tables: Seq<(Seq<char>, Seq<(Seq<char>, Seq<char>)>)>, key: Seq<char>, lang: Seq<char>, fallback: Seq<char>) -> Seq<char> {
    match table_of(tables, lang) {
        Some(e) if entry_text(e, key) is Some => entry_text(e, key)->0,
        _ => match table_of(tables, fallback) {
            Some(e) if entry_text(e, key) is Some => entry_text(e, key)->0,
            _ => key,
        },
    }
}

fn find_table(tables: &Vec<LanguageTable>, lang: &str) -> (r: Option<usize>)
    ensures
        match r {
            Some(i) => i < tables@.len() && table_of(tables_view(tables@), lang@) == Some(pairs_view(tables@[i as int].entries@)),
            None => table_of(tables_view(tables@), lang@) is None,
        },
{
    let mut i: usize = tables.len();
    let ghost t = tables_view(tables@);
    assert(t.take(t.len() as int) =~= t);
    while i > 0
        invariant
            i <= tables.len(),
            t == tables_view(tables@),
            table_of(t, lang@) == table_of(t.take(i as int), lang@),
        decreases i,
    {
        let ghost s = t.take(i as int);
        assert(s.drop_last() =~= t.take(i - 1));
        assert(s.last() == (tables@[i - 1].lang@, pairs_view(tables@[i - 1].entries@)));
        if str_eq(tables[i - 1].lang.as_str(), lang) {
            return Some(i - 1);
        }
        i = i - 1;
    }
    None
}

/// The translation of a key in a language (see `translation`).
pub fn translate(tables: &Vec<LanguageTable>, key: &str, lang: &str, fallback: &str) -> (r: String)
    ensures
        r@ == translation(tables_view(tables@), key@, lang@, fallback@),
{
    if let Some(i) = find_table(tables, lang) {
        if let Some(v) = find_entry(&tables[i].entries, key) {
            return v;
        }
    }
    if let Some(i) = find_table(tables, fallback) {
        if let Some(v) = find_entry(&tables[i].entries, key) {
            return v;
        }
    }
    owned(key)
}

/// The display name and flag of a language code; unknown codes show the code and a globe.
pub open spec fn language_label(code: Seq<char>) -> (Seq<char>, Seq<char>) {
    if code == "en_US"@ { ("English"@, "🇺🇸"@) }
    else if code == "zh_CN"@ { ("简体中文"@, "🇨🇳"@) }
    else if code == "zh_TW"@ { ("繁體中文"@, "🇹🇼"@) }
    else if code == "ru_RU"@ { ("Русский"@, "🇷🇺"@) }
    else if code == "vi_VN"@ { ("Tiếng Việt"@, "🇻🇳"@) }
    else if code == "fa_IR"@ { ("فارسی"@, "🇮🇷"@) }
    else if code == "ar_EG"@ { ("العربية"@, "🇪🇬"@) }
    else if code == "es_ES"@ { ("Español"@, "🇪🇸"@) }
    else if code == "ja_JP"@ { ("日本語"@, "🇯🇵"@) }
    else if code == "id_ID"@ { ("Bahasa Indonesia"@, "🇮🇩"@) }
    else if code == "pt_BR"@ { ("Português"@, "🇧🇷"@) }
    else if code == "tr_TR"@ { ("Türkçe"@, "🇹🇷"@) }
    else if code == "uk_UA"@ { ("Українська"@, "🇺🇦"@) }
    else { (code, "🌐"@) }
}

/// The language information of a code (see `language_label`).
pub fn language_info(code: &str) -> (r: LanguageInfo)
    ensures
        r.value@ == code@,
        (r.name@, r.icon@) == language_label(code@),
{
    let (name, icon): (&str, &str) = if str_eq(code, "en_US") { ("English", "🇺🇸") }
    else if str_eq(code, "zh_CN") { ("简体中文", "🇨🇳") }
    else if str_eq(code, "zh_TW") { ("繁體中文", "🇹🇼") }
    else if str_eq(code, "ru_RU") { ("Русский", "🇷🇺") }
    else if str_eq(code, "vi_VN") { ("Tiếng Việt", "🇻🇳") }
    else if str_eq(code, "fa_IR") { ("فارسی", "🇮🇷") }
    else if str_eq(code, "ar_EG") { ("العربية", "🇪🇬") }
    else if str_eq(code, "es_ES") { ("Español", "🇪🇸") }
    else if str_eq(code, "ja_JP") { ("日本語", "🇯🇵") }
    else if str_eq(code, "id_ID") { ("Bahasa Indonesia", "🇮🇩") }
    else if str_eq(code, "pt_BR") { ("Português", "🇧🇷") }
    else if str_eq(code, "tr_TR") { ("Türkçe", "🇹🇷") }
    else if str_eq(code, "uk_UA") { ("Українська", "🇺🇦") }
    else { (code, "🌐") };
    LanguageInfo { value: owned(code), name: owned(name), icon: owned(icon) }
}

/// The language codes with translation files.
pub open spec fn known_languages() -> Seq<Seq<char>> {
    seq!["en_US"@, "zh_CN"@, "zh_TW"@, "ru_RU"@, "vi_VN"@, "fa_IR"@, "ar_EG"@, "es_ES"@, "ja_JP"@, "id_ID"@, "pt_BR"@, "tr_TR"@, "uk_UA"@]
}

/// The language codes with translation files, in loading order.
pub fn language_codes() -> (r: Vec<&'static str>)
    ensures
        r@.map_values(|s: &str| s@) == known_languages(),
{
    let r: Vec<&'static str> = vec!["en_US", "zh_CN", "zh_TW", "ru_RU", "vi_VN", "fa_IR", "ar_EG", "es_ES", "ja_JP", "id_ID", "pt_BR", "tr_TR", "uk_UA"];
    assert(r@.map_values(|s: &str| s@) =~= known_languages());
    r
}

/// The translation service: the current language, the loaded tables and the fallback language.
#[derive(Debug)]
pub struct I18n {
    current_lang: String,
    translations: Vec<LanguageTable>,
    default_lang: String,
}

impl I18n {
    /// The current language.
    pub closed spec fn spec_current(&self) -> Seq<char> {
        self.current_lang@
    }

    /// The loaded tables, oldest first.
    pub closed spec fn spec_tables(&self) -> Seq<(Seq<char>, Seq<(Seq<char>, Seq<char>)>)> {
        tables_view(self.translations@)
    }

    /// The fallback language.
    pub closed spec fn spec_default(&self) -> Seq<char> {
        self.default_lang@
    }

    /// English, with no tables loaded.
    pub fn new() -> (r: I18n)
        ensures
            r.spec_current() == "en_US"@,
            r.spec_default() == "en_US"@,
            r.spec_tables() == Seq::<(Seq<char>, Seq<(Seq<char>, Seq<char>)>)>::empty(),
    {
        let r = I18n { current_lang: owned("en_US"), translations: Vec::new(), default_lang: owned("en_US") };
        assert(r.spec_tables() =~= Seq::<(Seq<char>, Seq<(Seq<char>, Seq<char>)>)>::empty());
        r
    }

    /// Stores the table of a language (it replaces an earlier one for lookups).
    pub fn add_translations(&mut self, lang: &str, entries: Vec<(String, String)>)
        ensures
            final(self).spec_tables() == old(self).spec_tables().push((lang@, pairs_view(entries@))),
            final(self).spec_current() == old(self).spec_current(),
            final(self).spec_default() == old(self).spec_default(),
    {
        let ghost before = self.spec_tables();
        let ghost ev = pairs_view(entries@);
        self.translations.push(LanguageTable { lang: owned(lang), entries });
        assert(self.spec_tables() =~= before.push((lang@, ev)));
    }

    /// Switches the current language.
    pub fn set_language(&mut self, lang: &str)
        ensures
            final(self).spec_current() == lang@,
            final(self).spec_tables() == old(self).spec_tables(),
            final(self).spec_default() == old(self).spec_default(),
    {
        self.current_lang = owned(lang);
    }

    /// The current language.
    pub fn get_language(&self) -> (r: String)
        ensures
            r@ == self.spec_current(),
    {
        owned(self.current_lang.as_str())
    }

    /// The translation of a key in the current language, else in the fallback language, else
    /// the key itself.
    pub fn t(&self, key: &str) -> (r: String)
        ensures
            r@ == translation(self.spec_tables(), key@, self.spec_current(), self.spec_default()),
    {
        translate(&self.translations, key, self.current_lang.as_str(), self.default_lang.as_str())
    }

    /// The synchronous lookup used while rendering: it gives the key back.
    pub fn t_sync(&self, key: &str, lang: &str) -> (r: String)
        ensures
            r@ == key@,
    {
        let _ = lang;
        owned(key)
    }

    /// Whether a table is loaded for a language.
    pub fn is_language_supported(&self, lang: &str) -> (r: bool)
        ensures
            r == table_of(self.spec_tables(), lang@) is Some,
    {
        find_table(&self.translations, lang).is_some()
    }

    /// The languages with a loaded table, with their names and flags.
    pub fn get_supported_languages(&self) -> (r: Vec<LanguageInfo>)
        ensures
            r@.len() == self.spec_tables().len(),
            forall|i: int| 0 <= i < r@.len() ==> (#[trigger] r@[i]).value@ == self.spec_tables()[i].0
                && (r@[i].name@, r@[i].icon@) == language_label(self.spec_tables()[i].0),
    {
        let mut out: Vec<LanguageInfo> = Vec::new();
        let mut i: usize = 0;
        while i < self.translations.len()
            invariant
                i <= self.translations.len(),
                out@.len() == i,
                forall|k: int| 0 <= k < i ==> (#[trigger] out@[k]).value@ == self.translations@[k].lang@
                    && (out@[k].name@, out@[k].icon@) == language_label(self.translations@[k].lang@),
            decreases self.translations.len() - i,
        {
            out.push(language_info(self.translations[i].lang.as_str()));
            i = i + 1;
        }
        out
    }
}

impl Default for I18n {
    fn default() -> (r: I18n)
        ensures
            r.spec_current() == "en_US"@,
            r.spec_default() == "en_US"@,
            r.spec_tables() == Seq::<(Seq<char>, Seq<(Seq<char>, Seq<char>)>)>::empty(),
    {
        I18n::new()
    }
}

/// The translation of a key in a language for templates: its text there, else its English
/// text, else the key itself.
pub fn get_translation_sync(tables: &Vec<LanguageTable>, key: &str, lang: &str) -> (r: String)
    ensures
        r@ == translation(tables_view(tables@), key@, lang@, "en_US"@),
{
    translate(tables, key, lang, "en_US")
}

/// A table stored last for a language is the one its lookups read: a key it holds reads as
/// its text there (the last entry of the key winning), whatever other tables hold; a key that
/// no table holds reads as itself.
pub proof fn lemma_stored_table_is_read(
    tables: Seq<(Seq<char>, Seq<(Seq<char>, Seq<char>)>)>,
    lang: Seq<char>,
    entries: Seq<(Seq<char>, Seq<char>)>,
    key: Seq<char>,
    text: Seq<char>,
    fallback: Seq<char>,
)
    ensures
        table_of(tables.push((lang, entries)), lang) == Some(entries),
        entry_text(entries.push((key, text)), key) == Some(text),
        translation(tables.push((lang, entries.push((key, text)))), key, lang, fallback) == text,
        translation(Seq::empty(), key, lang, fallback) == key,
{
    assert(tables.push((lang, entries)).drop_last() =~= tables);
    assert(entries.push((key, text)).drop_last() =~= entries);
    assert(tables.push((lang, entries.push((key, text)))).drop_last() =~= tables);
}

} // verus!
