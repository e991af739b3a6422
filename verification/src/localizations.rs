//! In-memory translation tables: a pure lookup from message key to display
//! string for the active language, with fallback to English, language
//! selection by exact tag or by primary-subtag prefix, and normalization
//! of raw locale values to a supported tag.

use vstd::prelude::*;

use crate::text::{char_index_from, find_char, is_prefix, str_eq, str_starts_with};

verus! {

/// The map a list of key/value entries denotes; a later entry for the
/// same key overrides an earlier one.
pub open spec fn entries_map<V>(es: Seq<(Seq<char>, V)>) -> Map<Seq<char>, V>
    decreases es.len(),
{
    if es.len() == 0 {
        Map::empty()
    } else {
        entries_map(es.drop_last()).insert(es.last().0, es.last().1)
    }
}

/// Entries at or after `i` free of the key `k` do not affect what the map
/// holds at `k`.
proof fn lemma_entries_map_skip<V>(es: Seq<(Seq<char>, V)>, k: Seq<char>, i: int)
    requires
        0 <= i <= es.len(),
        forall|j: int| i <= j < es.len() ==> es[j].0 != k,
    ensures
        entries_map(es).contains_key(k) == entries_map(es.take(i)).contains_key(k),
        entries_map(es).contains_key(k) ==> entries_map(es)[k] == entries_map(es.take(i))[k],
    decreases es.len() - i,
{
    if i == es.len() {
        assert(es.take(i) =~= es);
    } else {
        assert(es.take(es.len() - 1) =~= es.drop_last());
        assert(es.drop_last().take(i) =~= es.take(i));
        lemma_entries_map_skip(es.drop_last(), k, i);
    }
}

/// One translation table: message key to display string.
pub struct Translations {
    entries: Vec<(String, String)>,
}

impl View for Translations {
    type V = Map<Seq<char>, Seq<char>>;

    closed spec fn view(&self) -> Map<Seq<char>, Seq<char>> {
        entries_map(self.entries.deep_view())
    }
}

impl DeepView for Translations {
    type V = Map<Seq<char>, Seq<char>>;

    open spec fn deep_view(&self) -> Map<Seq<char>, Seq<char>> {
        self.view()
    }
}

impl Translations {
    /// An empty table.
    pub fn new() -> (t: Self)
        ensures
            t@ == Map::<Seq<char>, Seq<char>>::empty(),
    {
        Translations { entries: Vec::new() }
    }

    /// Adds one key/value pair, overriding any earlier value of the key.
    pub fn insert(&mut self, key: &str, value: &str)
        ensures
            final(self)@ == old(self)@.insert(key@, value@),
    {
        self.entries.push((String::from_str(key), String::from_str(value)));
        proof {
            assert(self.entries.deep_view().drop_last() =~= old(self).entries.deep_view());
        }
    }

    /// The value of a key, when the table holds one.
    pub fn lookup(&self, key: &str) -> (r: Option<String>)
        ensures
            match r {
                Some(v) => self@.contains_key(key@) && v@ == self@[key@],
                None => !self@.contains_key(key@),
            },
    {
        let ghost es = self.entries.deep_view();
        let n = self.entries.len();
        let mut i: usize = n;
        while i > 0
            invariant
                i <= n,
                n == self.entries.len(),
                es == self.entries.deep_view(),
                forall|j: int| i <= j < n ==> es[j].0 != key@,
            decreases i,
        {
            i -= 1;
            if str_eq(self.entries[i].0.as_str(), key) {
                proof {
                    lemma_entries_map_skip(es, key@, i as int + 1);
                    assert(es.take(i as int + 1).drop_last() =~= es.take(i as int));
                    assert(es.take(i as int + 1).last() == es[i as int]);
                }
                return Some(self.entries[i].1.clone());
            }
        }
        proof {
            lemma_entries_map_skip(es, key@, 0);
            assert(es.take(0) =~= Seq::<(Seq<char>, Seq<char>)>::empty());
        }
        None
    }
}

/// The English table: the hardcoded defaults of every message key.
pub open spec fn english_table() -> Map<Seq<char>, Seq<char>> {
    Map::empty()
        .insert("app-title"@, "YouTube Downloader"@)
        .insert("download-button"@, "Download"@)
        .insert("update-button"@, "Update yt-dlp"@)
        .insert("download-format"@, "Download as:"@)
        .insert("format-mp4"@, "MP4 (Video)"@)
        .insert("format-mp3"@, "MP3 (Audio only)"@)
        .insert("url-label"@, "Video URL:"@)
        .insert("url-placeholder"@, "Enter video URL"@)
        .insert("status-ready"@, "Ready"@)
        .insert("status-downloading"@, "Downloading:"@)
        .insert("status-updating"@, "Updating yt-dlp..."@)
        .insert("status-complete"@, "Download complete:"@)
        .insert("error-invalid-url"@, "Error: Invalid URL"@)
        .insert(
        "error-ytdlp-not-found"@,
        "Error: yt-dlp not found. Please install yt-dlp and make sure it's in your PATH."@,
    )
        .insert("update-success"@, "yt-dlp updated successfully"@)
        .insert("update-failed"@, "Failed to update yt-dlp"@)
}

/// The Spanish table.
pub open spec fn spanish_table() -> Map<Seq<char>, Seq<char>> {
    Map::empty()
        .insert("app-title"@, "Descargador de YouTube"@)
        .insert("download-button"@, "Descargar"@)
        .insert("update-button"@, "Actualizar yt-dlp"@)
        .insert("download-format"@, "Descargar como:"@)
        .insert("format-mp4"@, "MP4 (Video)"@)
        .insert("format-mp3"@, "MP3 (Solo audio)"@)
        .insert("url-label"@, "URL del video:"@)
        .insert("url-placeholder"@, "Ingrese la URL del video"@)
        .insert("status-ready"@, "Listo"@)
        .insert("status-downloading"@, "Descargando:"@)
        .insert("status-updating"@, "Actualizando yt-dlp..."@)
        .insert("status-complete"@, "Descarga completada:"@)
        .insert("error-invalid-url"@, "Error: URL inválida"@)
        .insert(
        "error-ytdlp-not-found"@,
        "Error: No se encontró yt-dlp. Por favor instale yt-dlp y asegúrese de que esté en su PATH."@,
    )
        .insert("update-success"@, "yt-dlp actualizado correctamente"@)
        .insert("update-failed"@, "Error al actualizar yt-dlp"@)
}

/// The language tags of a table list, in insertion order.
pub open spec fn language_keys_of(es: Seq<(Seq<char>, Map<Seq<char>, Seq<char>>)>) -> Seq<
    Seq<char>,
> {
    Seq::new(es.len(), |i: int| es[i].0)
}

/// What a key lookup yields: the active language's entry, else the English
/// entry when the active language is not English, else nothing. The
/// fallback to a hardcoded default string is the caller's responsibility.
pub open spec fn lookup_result(
    languages: Map<Seq<char>, Map<Seq<char>, Seq<char>>>,
    current: Seq<char>,
    key: Seq<char>,
) -> Option<Seq<char>> {
    if languages.contains_key(current) && languages[current].contains_key(key) {
        Some(languages[current][key])
    } else if current != "en-US"@ && languages.contains_key("en-US"@)
        && languages["en-US"@].contains_key(key) {
        Some(languages["en-US"@][key])
    } else {
        None
    }
}

/// Index of the first language tag at or after `i` that the prefix `p`
/// begins, or the length.
pub open spec fn prefix_match_index_from(keys: Seq<Seq<char>>, p: Seq<char>, i: int) -> int
    decreases keys.len() - i,
{
    if i < 0 || i >= keys.len() {
        keys.len() as int
    } else if is_prefix(p, keys[i]) {
        i
    } else {
        prefix_match_index_from(keys, p, i + 1)
    }
}

/// The language a `select` call settles on: the exact tag when the list
/// holds it; else the first tag the primary subtag begins; else English.
pub open spec fn selected_language(keys: Seq<Seq<char>>, lang: Seq<char>) -> Seq<char> {
    if exists|j: int| 0 <= j < keys.len() && keys[j] == lang {
        lang
    } else {
        let p = lang.take(char_index_from(lang, '-', 0));
        let i = prefix_match_index_from(keys, p, 0);
        if i < keys.len() {
            keys[i]
        } else {
            "en-US"@
        }
    }
}

/// A raw locale value (the shape of the `LANG` environment variable)
/// names Spanish when it begins with "es", or when its part before the
/// first underscore is "es" in either letter case ("es_ES.UTF-8",
/// "ES_ES", plain "es").
pub open spec fn locale_names_spanish(l: Seq<char>) -> bool {
    let part = l.take(char_index_from(l, '_', 0));
    is_prefix("es"@, l) || (part.len() == 2 && (part[0] == 'e' || part[0] == 'E') && (part[1]
        == 's' || part[1] == 'S'))
}

/// The language tag a raw locale value selects: the Spanish table's tag
/// when the locale names Spanish, else the English default.
pub open spec fn locale_tag(l: Seq<char>) -> Seq<char> {
    if locale_names_spanish(l) {
        "es-ES"@
    } else {
        "en-US"@
    }
}

/// Normalizes a raw locale value ("es_ES.UTF-8", "ES_ES", "en_US.UTF-8")
/// to the language tag to hand to `select`, as `locale_tag` states.
pub fn locale_to_language_tag(locale: &str) -> (r: String)
    ensures
        r@ == locale_tag(locale@),
{
    let underscore = find_char(locale, '_');
    let part = locale.substring_char(0, underscore);
    proof {
        assert(part@ =~= locale@.take(char_index_from(locale@, '_', 0)));
    }
    let spanish = if str_starts_with(locale, "es") {
        true
    } else if part.unicode_len() == 2 {
        let c0 = part.get_char(0);
        let c1 = part.get_char(1);
        (c0 == 'e' || c0 == 'E') && (c1 == 's' || c1 == 'S')
    } else {
        false
    };
    if spanish {
        String::from_str("es-ES")
    } else {
        String::from_str("en-US")
    }
}

/// The translation tables of every supported language, with the active
/// language tag.
pub struct Localizations {
    languages: Vec<(String, Translations)>,
    current_lang: String,
}

impl Localizations {
    /// The language tags on offer, in insertion order.
    pub closed spec fn language_keys(&self) -> Seq<Seq<char>> {
        language_keys_of(self.languages.deep_view())
    }

    /// The table of each language tag.
    pub closed spec fn language_tables(&self) -> Map<Seq<char>, Map<Seq<char>, Seq<char>>> {
        entries_map(self.languages.deep_view())
    }

    /// The active language tag.
    pub closed spec fn current_language(&self) -> Seq<char> {
        self.current_lang@
    }

    /// The built-in tables: English and Spanish, with English active.
    pub fn new() -> (r: Self)
        ensures
            r.language_tables() == Map::empty().insert("en-US"@, english_table()).insert(
                "es-ES"@,
                spanish_table(),
            ),
            r.language_keys() == seq!["en-US"@, "es-ES"@],
            r.current_language() == "en-US"@,
    {
        let mut en = Translations::new();
        en.insert("app-title", "YouTube Downloader");
        en.insert("download-button", "Download");
        en.insert("update-button", "Update yt-dlp");
        en.insert("download-format", "Download as:");
        en.insert("format-mp4", "MP4 (Video)");
        en.insert("format-mp3", "MP3 (Audio only)");
        en.insert("url-label", "Video URL:");
        en.insert("url-placeholder", "Enter video URL");
        en.insert("status-ready", "Ready");
        en.insert("status-downloading", "Downloading:");
        en.insert("status-updating", "Updating yt-dlp...");
        en.insert("status-complete", "Download complete:");
        en.insert("error-invalid-url", "Error: Invalid URL");
        en.insert(
            "error-ytdlp-not-found",
            "Error: yt-dlp not found. Please install yt-dlp and make sure it's in your PATH.",
        );
        en.insert("update-success", "yt-dlp updated successfully");
        en.insert("update-failed", "Failed to update yt-dlp");

        let mut es = Translations::new();
        es.insert("app-title", "Descargador de YouTube");
        es.insert("download-button", "Descargar");
        es.insert("update-button", "Actualizar yt-dlp");
        es.insert("download-format", "Descargar como:");
        es.insert("format-mp4", "MP4 (Video)");
        es.insert("format-mp3", "MP3 (Solo audio)");
        es.insert("url-label", "URL del video:");
        es.insert("url-placeholder", "Ingrese la URL del video");
        es.insert("status-ready", "Listo");
        es.insert("status-downloading", "Descargando:");
        es.insert("status-updating", "Actualizando yt-dlp...");
        es.insert("status-complete", "Descarga completada:");
        es.insert("error-invalid-url", "Error: URL inválida");
        es.insert(
            "error-ytdlp-not-found",
            "Error: No se encontró yt-dlp. Por favor instale yt-dlp y asegúrese de que esté en su PATH.",
        );
        es.insert("update-success", "yt-dlp actualizado correctamente");
        es.insert("update-failed", "Error al actualizar yt-dlp");

        let ghost en_table = en@;
        let ghost es_table = es@;
        let mut languages: Vec<(String, Translations)> = Vec::new();
        languages.push((String::from_str("en-US"), en));
        languages.push((String::from_str("es-ES"), es));
        let r = Localizations { languages, current_lang: String::from_str("en-US") };
        proof {
            assert(en_table == english_table());
            assert(es_table == spanish_table());
            let dv = r.languages.deep_view();
            assert(dv[0] == ("en-US"@, en_table));
            assert(dv[1] == ("es-ES"@, es_table));
            assert(dv.drop_last() =~= seq![("en-US"@, en_table)]);
            assert(seq![("en-US"@, en_table)].drop_last() =~= Seq::<
                (Seq<char>, Map<Seq<char>, Seq<char>>),
            >::empty());
            assert(dv.len() == 2);
            assert(dv.last() == ("es-ES"@, es_table));
            assert(entries_map(Seq::<(Seq<char>, Map<Seq<char>, Seq<char>>)>::empty())
                == Map::<Seq<char>, Map<Seq<char>, Seq<char>>>::empty());
            assert(entries_map(seq![("en-US"@, en_table)]) == Map::empty().insert(
                "en-US"@,
                en_table,
            ));
            assert(entries_map(dv) == entries_map(seq![("en-US"@, en_table)]).insert(
                "es-ES"@,
                es_table,
            ));
            assert(r.language_keys() =~= seq!["en-US"@, "es-ES"@]);
        }
        r
    }

    /// The table of a language tag, when one is on offer.
    fn table_of(&self, lang: &str) -> (r: Option<&Translations>)
        ensures
            match r {
                Some(t) => self.language_tables().contains_key(lang@) && t@
                    == self.language_tables()[lang@],
                None => !self.language_tables().contains_key(lang@),
            },
    {
        let ghost es = self.languages.deep_view();
        let n = self.languages.len();
        let mut i: usize = n;
        while i > 0
            invariant
                i <= n,
                n == self.languages.len(),
                es == self.languages.deep_view(),
                forall|j: int| i <= j < n ==> es[j].0 != lang@,
            decreases i,
        {
            i -= 1;
            if str_eq(self.languages[i].0.as_str(), lang) {
                proof {
                    lemma_entries_map_skip(es, lang@, i as int + 1);
                    assert(es.take(i as int + 1).drop_last() =~= es.take(i as int));
                    assert(es.take(i as int + 1).last() == es[i as int]);
                }
                return Some(&self.languages[i].1);
            }
        }
        proof {
            lemma_entries_map_skip(es, lang@, 0);
            assert(es.take(0) =~= Seq::<(Seq<char>, Map<Seq<char>, Seq<char>>)>::empty());
        }
        None
    }

    /// Looks a message key up in the active language, falling back to
    /// English, as `lookup_result` states; `None` asks the caller to
    /// substitute its hardcoded default.
    pub fn lookup_single_language(&self, key: &str, _args: Option<&()>) -> (r: Option<String>)
        ensures
            match r {
                Some(v) => lookup_result(
                    self.language_tables(),
                    self.current_language(),
                    key@,
                ) == Some(v@),
                None => lookup_result(self.language_tables(), self.current_language(), key@)
                    is None,
            },
    {
        let primary = match self.table_of(self.current_lang.as_str()) {
            Some(t) => t.lookup(key),
            None => None,
        };
        match primary {
            Some(v) => Some(v),
            None => {
                if !str_eq(self.current_lang.as_str(), "en-US") {
                    match self.table_of("en-US") {
                        Some(t) => t.lookup(key),
                        None => None,
                    }
                } else {
                    None
                }
            },
        }
    }

    /// Makes a language active: the exact tag when on offer, else the
    /// first tag the request's primary subtag begins, else English. The
    /// tables themselves never change, and the call always succeeds.
    pub fn select(&mut self, lang: &str) -> (r: Result<(), String>)
        ensures
            r is Ok,
            final(self).language_tables() == old(self).language_tables(),
            final(self).language_keys() == old(self).language_keys(),
            final(self).current_language() == selected_language(old(self).language_keys(), lang@),
    {
        let ghost keys = self.language_keys();
        let n = self.languages.len();
        let mut i: usize = 0;
        while i < n
            invariant
                i <= n,
                n == self.languages.len(),
                self.languages == old(self).languages,
                self.current_lang == old(self).current_lang,
                keys == self.language_keys(),
                forall|j: int| 0 <= j < i ==> keys[j] != lang@,
            decreases n - i,
        {
            if str_eq(self.languages[i].0.as_str(), lang) {
                proof {
                    assert(keys[i as int] == lang@);
                }
                self.current_lang = String::from_str(lang);
                return Ok(());
            }
            i += 1;
        }
        let dash = find_char(lang, '-');
        let prefix = lang.substring_char(0, dash);
        proof {
            assert(prefix@ =~= lang@.take(char_index_from(lang@, '-', 0)));
        }
        let mut j: usize = 0;
        while j < n
            invariant
                j <= n,
                n == self.languages.len(),
                self.languages == old(self).languages,
                self.current_lang == old(self).current_lang,
                keys == self.language_keys(),
                prefix@ == lang@.take(char_index_from(lang@, '-', 0)),
                forall|k: int| 0 <= k < keys.len() ==> keys[k] != lang@,
                prefix_match_index_from(keys, prefix@, 0) == prefix_match_index_from(
                    keys,
                    prefix@,
                    j as int,
                ),
            decreases n - j,
        {
            if str_starts_with(self.languages[j].0.as_str(), prefix) {
                self.current_lang = self.languages[j].0.clone();
                return Ok(());
            }
            j += 1;
        }
        self.current_lang = String::from_str("en-US");
        Ok(())
    }
}

} // verus!
