//! Translations: language packs, the current language, lookups with
//! placeholder substitution, and restoring the saved language choice.
use vstd::prelude::*;
use vstd::hash_map::StringHashMap;
use crate::files::str_eq;
use crate::text::{append_chars, chars_of, has_prefix, starts_with_chars, string_of, trim, trim_chars};

verus! {

/// The messages of one language, keyed by message id.
pub struct LanguagePack {
    pub entries: StringHashMap<String>,
}

impl View for LanguagePack {
    type V = Map<Seq<char>, Seq<char>>;

    open spec fn view(&self) -> Map<Seq<char>, Seq<char>> {
        self.entries@.map_values(|s: String| s@)
    }
}

impl LanguagePack {
    /// A pack without messages.
    pub fn new() -> (p: LanguagePack)
        ensures
            p@ == Map::<Seq<char>, Seq<char>>::empty(),
    {
        let m: StringHashMap<String> = StringHashMap::new();
        let p = LanguagePack { entries: m };
        assert(p@ =~= Map::<Seq<char>, Seq<char>>::empty());
        p
    }

    /// Stores the text of a message id (replacing an earlier one).
    pub fn insert(&mut self, key: &str, text: &str)
        ensures
            final(self)@ == old(self)@.insert(key@, text@),
    {
        put(&mut self.entries, key, text);
    }
}

/// Mathematical model of the translation state.
pub struct I18nView {
    pub current: Seq<char>,
    pub packs: Seq<(Seq<char>, Map<Seq<char>, Seq<char>>)>,
}

/// The translation state: the current language and the loaded packs.
pub struct I18n {
    current: String,
    packs: Vec<(String, LanguagePack)>,
}

impl View for I18n {
    type V = I18nView;

    closed spec fn view(&self) -> I18nView {
        I18nView {
            current: self.current@,
            packs: self.packs@.map_values(|p: (String, LanguagePack)| (p.0@, p.1@)),
        }
    }
}

/// The language used when none is set or the requested one is unknown.
pub open spec fn default_lang() -> Seq<char> {
    "zh-CN"@
}

/// The pack of a language (a later pack of the same name wins).
pub open spec fn pack_of(packs: Seq<(Seq<char>, Map<Seq<char>, Seq<char>>)>, lang: Seq<char>) -> Option<
    Map<Seq<char>, Seq<char>>,
>
    decreases packs.len(),
{
    if packs.len() == 0 {
        None
    } else if packs.last().0 == lang {
        Some(packs.last().1)
    } else {
        pack_of(packs.drop_last(), lang)
    }
}

/// The language lookups use: the current one, or the default when unset.
pub open spec fn effective_lang(v: I18nView) -> Seq<char> {
    if v.current.len() == 0 {
        default_lang()
    } else {
        v.current
    }
}

/// The translation of a message id; an unknown id (or language) reads as
/// the id itself.
pub open spec fn translated(v: I18nView, key: Seq<char>) -> Seq<char> {
    match pack_of(v.packs, effective_lang(v)) {
        Some(m) => if m.contains_key(key) {
            m[key]
        } else {
            key
        },
        None => key,
    }
}

/// The language names of the loaded packs.
pub open spec fn pack_names(v: I18nView) -> Seq<Seq<char>> {
    v.packs.map_values(|p: (Seq<char>, Map<Seq<char>, Seq<char>>)| p.0)
}

/// Whether a language has a pack.
pub open spec fn has_pack(v: I18nView, lang: Seq<char>) -> bool {
    pack_of(v.packs, lang) is Some
}

/// No two packs share a language name.
pub open spec fn names_distinct(ps: Seq<(Seq<char>, Map<Seq<char>, Seq<char>>)>) -> bool {
    forall|i: int, j: int| 0 <= i < j < ps.len() ==> #[trigger] ps[i].0 != #[trigger] ps[j].0
}

/// The packs after adding one, as a map keyed by language name does it: a
/// pack of the same name is replaced where it stands, otherwise the pack
/// goes at the end.
pub open spec fn with_pack(acc: Seq<(Seq<char>, Map<Seq<char>, Seq<char>>)>, p: (Seq<char>, Map<Seq<char>, Seq<char>>)) -> Seq<(Seq<char>, Map<Seq<char>, Seq<char>>)> {
    if exists|i: int| 0 <= i < acc.len() && #[trigger] acc[i].0 == p.0 {
        acc.update(choose|i: int| 0 <= i < acc.len() && #[trigger] acc[i].0 == p.0, p)
    } else {
        acc.push(p)
    }
}

/// Packs added one after another (a later pack of a name replaces an
/// earlier one).
pub open spec fn merged_packs(ps: Seq<(Seq<char>, Map<Seq<char>, Seq<char>>)>) -> Seq<(Seq<char>, Map<Seq<char>, Seq<char>>)>
    decreases ps.len(),
{
    if ps.len() == 0 {
        Seq::<(Seq<char>, Map<Seq<char>, Seq<char>>)>::empty()
    } else {
        with_pack(merged_packs(ps.drop_last()), ps.last())
    }
}

proof fn lemma_pack_of_distinct(ps: Seq<(Seq<char>, Map<Seq<char>, Seq<char>>)>, lang: Seq<char>)
    requires
        names_distinct(ps),
    ensures
        forall|i: int| 0 <= i < ps.len() && #[trigger] ps[i].0 == lang ==> pack_of(ps, lang) == Some(ps[i].1),
        (forall|i: int| 0 <= i < ps.len() ==> #[trigger] ps[i].0 != lang) ==> pack_of(ps, lang) is None,
    decreases ps.len(),
{
    if ps.len() > 0 {
        let init = ps.drop_last();
        assert forall|i: int, j: int| 0 <= i < j < init.len() implies #[trigger] init[i].0 != #[trigger] init[j].0 by {
            assert(init[i] == ps[i] && init[j] == ps[j]);
        }
        lemma_pack_of_distinct(init, lang);
        assert forall|i: int| 0 <= i < ps.len() && #[trigger] ps[i].0 == lang implies pack_of(ps, lang) == Some(ps[i].1) by {
            if i < ps.len() - 1 {
                assert(init[i] == ps[i]);
                assert(ps[i].0 != ps[ps.len() - 1].0);
            }
        }
        if forall|i: int| 0 <= i < ps.len() ==> #[trigger] ps[i].0 != lang {
            assert(ps[ps.len() - 1].0 != lang);
            assert forall|i: int| 0 <= i < init.len() implies #[trigger] init[i].0 != lang by {
                assert(init[i] == ps[i]);
            }
        }
    }
}

proof fn lemma_merged_packs(ps: Seq<(Seq<char>, Map<Seq<char>, Seq<char>>)>)
    ensures
        names_distinct(merged_packs(ps)),
        forall|lang: Seq<char>| #[trigger] pack_of(merged_packs(ps), lang) == pack_of(ps, lang),
    decreases ps.len(),
{
    if ps.len() > 0 {
        let init = ps.drop_last();
        let p = ps.last();
        lemma_merged_packs(init);
        let acc = merged_packs(init);
        let out = merged_packs(ps);
        assert(out == with_pack(acc, p));
        lemma_pack_of_distinct(acc, p.0);
        if exists|i: int| 0 <= i < acc.len() && #[trigger] acc[i].0 == p.0 {
            let k = choose|i: int| 0 <= i < acc.len() && #[trigger] acc[i].0 == p.0;
            assert(out == acc.update(k, p));
            assert forall|i: int, j: int| 0 <= i < j < out.len() implies #[trigger] out[i].0 != #[trigger] out[j].0 by {
                if i != k && j != k {
                    assert(out[i] == acc[i] && out[j] == acc[j]);
                } else if i == k {
                    assert(out[j] == acc[j]);
                    assert(acc[k].0 != acc[j].0);
                } else {
                    assert(out[i] == acc[i]);
                    assert(acc[i].0 != acc[k].0);
                }
            }
            assert forall|lang: Seq<char>| #[trigger] pack_of(out, lang) == pack_of(ps, lang) by {
                lemma_pack_of_distinct(out, lang);
                lemma_pack_of_distinct(acc, lang);
                assert(out[k] == p);
                if lang == p.0 {
                    assert(pack_of(out, lang) == Some(out[k].1));
                } else {
                    if exists|i: int| 0 <= i < acc.len() && #[trigger] acc[i].0 == lang {
                        let m = choose|i: int| 0 <= i < acc.len() && #[trigger] acc[i].0 == lang;
                        assert(m != k);
                        assert(out[m] == acc[m]);
                        assert(pack_of(out, lang) == Some(out[m].1));
                    } else {
                        assert forall|i: int| 0 <= i < out.len() implies #[trigger] out[i].0 != lang by {
                            if i != k {
                                assert(out[i] == acc[i]);
                            }
                        }
                    }
                }
            }
        } else {
            assert(out == acc.push(p));
            assert forall|i: int, j: int| 0 <= i < j < out.len() implies #[trigger] out[i].0 != #[trigger] out[j].0 by {
                if j < acc.len() {
                    assert(out[i] == acc[i] && out[j] == acc[j]);
                } else {
                    assert(out[i] == acc[i]);
                    assert(out[j] == p);
                }
            }
            assert forall|lang: Seq<char>| #[trigger] pack_of(out, lang) == pack_of(ps, lang) by {
                assert(out.drop_last() =~= acc);
                assert(out.last() == p);
                assert(out.len() > 0 && ps.len() > 0);
                assert(pack_of(acc, lang) == pack_of(init, lang));
            }
        }
    }
}

/// Where a pack of a language name stands, if any.
fn position_of(packs: &Vec<(String, LanguagePack)>, name: &str) -> (r: Option<usize>)
    ensures
        match r {
            Some(k) => k < packs@.len() && packs@[k as int].0@ == name@,
            None => forall|j: int| 0 <= j < packs@.len() ==> (#[trigger] packs@[j]).0@ != name@,
        },
{
    let mut k: usize = 0;
    while k < packs.len()
        invariant
            k <= packs@.len(),
            forall|j: int| 0 <= j < k ==> (#[trigger] packs@[j]).0@ != name@,
        decreases packs@.len() - k,
    {
        if str_eq(packs[k].0.as_str(), name) {
            return Some(k);
        }
        k = k + 1;
    }
    None
}

impl I18n {
    /// Language names are distinct.
    #[verifier::type_invariant]
    spec fn distinct_packs(self) -> bool {
        names_distinct(self@.packs)
    }

    /// No packs, no current language.
    pub fn new() -> (r: I18n)
        ensures
            r@.current.len() == 0,
            r@.packs.len() == 0,
    {
        let r = I18n { current: String::new(), packs: Vec::new() };
        assert(r@.packs =~= Seq::<(Seq<char>, Map<Seq<char>, Seq<char>>)>::empty());
        r
    }

    fn find_pack(&self, lang: &str) -> (r: Option<usize>)
        ensures
            match r {
                Some(i) => i < self@.packs.len() && pack_of(self@.packs, lang@) == Some(
                    self@.packs[i as int].1,
                ),
                None => pack_of(self@.packs, lang@) is None,
            },
    {
        let ghost ps = self@.packs;
        let mut i = self.packs.len();
        assert(ps.subrange(0, i as int) =~= ps);
        while i > 0
            invariant
                i <= self.packs@.len(),
                ps == self@.packs,
                pack_of(ps.subrange(0, i as int), lang@) == pack_of(ps, lang@),
            decreases i,
        {
            let ghost pre = ps.subrange(0, i as int);
            assert(pre.last() == ps[i - 1]);
            assert(pre.drop_last() =~= ps.subrange(0, i - 1));
            if str_eq(self.packs[i - 1].0.as_str(), lang) {
                return Some(i - 1);
            }
            i = i - 1;
        }
        None
    }

    /// Installs packs, keyed by language name: a later pack of a name
    /// replaces an earlier one. When `packs` is empty the built-in Chinese
    /// and English packs are used instead.
    pub fn install_packs(&mut self, packs: Vec<(String, LanguagePack)>)
        ensures
            final(self)@.current == old(self)@.current,
            packs@.len() > 0 ==> final(self)@.packs == merged_packs(
                packs@.map_values(|p: (String, LanguagePack)| (p.0@, p.1@)),
            ),
            packs@.len() == 0 ==> final(self)@.packs == merged_packs(builtin_packs()),
            names_distinct(final(self)@.packs),
            forall|lang: Seq<char>|
                #[trigger] pack_of(final(self)@.packs, lang) == pack_of(
                    if packs@.len() > 0 {
                        packs@.map_values(|p: (String, LanguagePack)| (p.0@, p.1@))
                    } else {
                        builtin_packs()
                    },
                    lang,
                ),
    {
        let mut rest = if packs.len() == 0 {
            load_builtin_languages()
        } else {
            packs
        };
        let ghost src = rest@.map_values(|p: (String, LanguagePack)| (p.0@, p.1@));
        let n = rest.len();
        let mut out: Vec<(String, LanguagePack)> = Vec::new();
        let mut i: usize = 0;
        assert(out@.map_values(|p: (String, LanguagePack)| (p.0@, p.1@)) =~= merged_packs(src.subrange(0, 0)));
        while i < n
            invariant
                i <= n == src.len(),
                rest@.map_values(|p: (String, LanguagePack)| (p.0@, p.1@)) == src.subrange(i as int, n as int),
                out@.map_values(|p: (String, LanguagePack)| (p.0@, p.1@)) == merged_packs(src.subrange(0, i as int)),
            decreases n - i,
        {
            proof {
                lemma_merged_packs(src.subrange(0, i as int));
            }
            let ghost acc = out@.map_values(|p: (String, LanguagePack)| (p.0@, p.1@));
            let ghost before = rest@.map_values(|p: (String, LanguagePack)| (p.0@, p.1@));
            assert(rest@.len() == before.len());
            let p = rest.remove(0);
            assert(rest@.map_values(|p: (String, LanguagePack)| (p.0@, p.1@)) =~= before.drop_first());
            assert(before[0] == src[i as int]);
            assert(src.subrange(0, i + 1).drop_last() =~= src.subrange(0, i as int));
            assert(src.subrange(0, i + 1).last() == src[i as int]);
            let ghost pv = (p.0@, p.1@);
            let pos = position_of(&out, p.0.as_str());
            if let Some(k) = pos {
                assert(acc[k as int].0 == pv.0);
                assert(names_distinct(acc));
                let ghost c = choose|j: int| 0 <= j < acc.len() && #[trigger] acc[j].0 == pv.0;
                assert(c == k as int) by {
                    if c != k as int {
                        if c < k as int {
                            assert(acc[c].0 != acc[k as int].0);
                        } else {
                            assert(acc[k as int].0 != acc[c].0);
                        }
                    }
                }
                out.set(k, p);
                assert(out@.map_values(|p: (String, LanguagePack)| (p.0@, p.1@)) =~= acc.update(k as int, pv));
            } else {
                assert(!exists|j: int| 0 <= j < acc.len() && #[trigger] acc[j].0 == pv.0);
                out.push(p);
                assert(out@.map_values(|p: (String, LanguagePack)| (p.0@, p.1@)) =~= acc.push(pv));
            }
            i = i + 1;
        }
        assert(src.subrange(0, n as int) =~= src);
        proof {
            lemma_merged_packs(src);
        }
        *self = I18n { current: self.current.clone(), packs: out };
    }
}

/// The current language (the empty text until one is chosen).
pub fn get_current_lang(i18n: &I18n) -> (r: String)
    ensures
        r@ == i18n@.current,
{
    i18n.current.clone()
}

/// The names of the loaded language packs.
pub fn get_supported_languages(i18n: &I18n) -> (r: Vec<String>)
    ensures
        r@.map_values(|s: String| s@) == pack_names(i18n@),
        r@.map_values(|s: String| s@).no_duplicates(),
        forall|lang: Seq<char>| has_pack(i18n@, lang) <==> r@.map_values(|s: String| s@).contains(lang),
{
    proof {
        use_type_invariant(i18n);
    }
    let mut r: Vec<String> = Vec::new();
    let mut i: usize = 0;
    while i < i18n.packs.len()
        invariant
            i <= i18n.packs@.len(),
            r@.map_values(|s: String| s@) == pack_names(i18n@).subrange(0, i as int),
        decreases i18n.packs@.len() - i,
    {
        let ghost before = r@.map_values(|s: String| s@);
        let name = i18n.packs[i].0.clone();
        assert(name@ == i18n.packs@[i as int].0@);
        r.push(name);
        assert(r@.map_values(|s: String| s@) =~= before.push(i18n.packs@[i as int].0@));
        assert(pack_names(i18n@)[i as int] == i18n.packs@[i as int].0@);
        assert(pack_names(i18n@).subrange(0, i + 1) =~= pack_names(i18n@).subrange(0, i as int).push(
            i18n.packs@[i as int].0@,
        ));
        i = i + 1;
    }
    assert(pack_names(i18n@).subrange(0, i18n.packs@.len() as int) =~= pack_names(i18n@));
    let ghost names = pack_names(i18n@);
    let ghost ps = i18n@.packs;
    assert(names.no_duplicates()) by {
        assert forall|a: int, b: int| 0 <= a < names.len() && 0 <= b < names.len() && a != b implies names[a] != names[b] by {
            if a < b {
                assert(ps[a].0 != ps[b].0);
            } else {
                assert(ps[b].0 != ps[a].0);
            }
        }
    }
    assert forall|lang: Seq<char>| has_pack(i18n@, lang) <==> names.contains(lang) by {
        lemma_pack_of_distinct(ps, lang);
        if names.contains(lang) {
            let k = choose|k: int| 0 <= k < names.len() && names[k] == lang;
            assert(ps[k].0 == lang);
        }
        if has_pack(i18n@, lang) {
            if forall|i: int| 0 <= i < ps.len() ==> #[trigger] ps[i].0 != lang {
            } else {
                let k = choose|i: int| 0 <= i < ps.len() && #[trigger] ps[i].0 == lang;
                assert(names[k] == lang);
            }
        }
    }
    r
}

/// Translates a message id in the current language.
pub fn t(i18n: &I18n, key: &str) -> (r: String)
    ensures
        r@ == translated(i18n@, key@),
{
    let lang: &str = if i18n.current.unicode_len() == 0 {
        "zh-CN"
    } else {
        i18n.current.as_str()
    };
    match i18n.find_pack(lang) {
        Some(i) => match i18n.packs[i].1.entries.get(key) {
            Some(text) => text.clone(),
            None => key.to_string(),
        },
        None => key.to_string(),
    }
}

/// `s.replace(pat, rep)` for a non-empty pattern: every match, scanning left
/// to right without overlaps, is replaced.
pub open spec fn replace_all(s: Seq<char>, pat: Seq<char>, rep: Seq<char>) -> Seq<char>
    recommends
        pat.len() > 0,
    decreases s.len(),
{
    if pat.len() == 0 || s.len() < pat.len() {
        s
    } else if has_prefix(s, pat) {
        rep + replace_all(s.subrange(pat.len() as int, s.len() as int), pat, rep)
    } else {
        seq![s[0]] + replace_all(s.drop_first(), pat, rep)
    }
}

/// Replaces every occurrence of a non-empty pattern.
pub fn replace_chars(s: &Vec<char>, pat: &Vec<char>, rep: &Vec<char>) -> (r: Vec<char>)
    requires
        pat@.len() > 0,
    ensures
        r@ == replace_all(s@, pat@, rep@),
{
    let mut out: Vec<char> = Vec::new();
    let mut i: usize = 0;
    let n = s.len();
    let m = pat.len();
    assert(s@.subrange(0, n as int) =~= s@);
    while m <= n - i
        invariant
            i <= n == s@.len(),
            m == pat@.len() > 0,
            out@ + replace_all(s@.subrange(i as int, n as int), pat@, rep@) == replace_all(
                s@,
                pat@,
                rep@,
            ),
        decreases n - i,
    {
        let ghost rest = s@.subrange(i as int, n as int);
        let mut matched = true;
        let mut j: usize = 0;
        while j < m
            invariant
                j <= m == pat@.len(),
                i + m <= n == s@.len(),
                matched ==> forall|q: int| 0 <= q < j ==> s@[i + q] == pat@[q],
                !matched ==> !has_prefix(rest, pat@),
                rest == s@.subrange(i as int, n as int),
            decreases m - j,
        {
            if s[i + j] != pat[j] {
                if matched {
                    assert(rest.subrange(0, m as int)[j as int] != pat@[j as int]);
                }
                matched = false;
            }
            j = j + 1;
        }
        if matched {
            assert(rest.subrange(0, m as int) =~= pat@);
            assert(rest.subrange(m as int, rest.len() as int) =~= s@.subrange(i + m, n as int));
            append_chars(&mut out, rep);
            i = i + m;
        } else {
            assert(rest.drop_first() =~= s@.subrange(i + 1, n as int));
            out.push(s[i]);
            i = i + 1;
        }
        proof {
            assert(out@ + replace_all(s@.subrange(i as int, n as int), pat@, rep@) =~= replace_all(
                s@,
                pat@,
                rep@,
            ));
        }
    }
    proof {
        let rest = s@.subrange(i as int, n as int);
        assert(replace_all(rest, pat@, rep@) == rest);
        assert(out@ + rest == replace_all(s@, pat@, rep@));
        assert(rest =~= s@.subrange(i as int, n as int));
    }
    append_chars(&mut out, &crate::text::sub_chars(s, i, n));
    out
}

/// The placeholder `{name}`.
pub open spec fn placeholder(name: Seq<char>) -> Seq<char> {
    seq!['{'] + name + seq!['}']
}

/// A text with each `{name}` replaced by its value, the pairs applied in
/// order.
pub open spec fn fill_placeholders(text: Seq<char>, params: Seq<(Seq<char>, Seq<char>)>) -> Seq<
    char,
>
    decreases params.len(),
{
    if params.len() == 0 {
        text
    } else {
        let before = fill_placeholders(text, params.drop_last());
        replace_all(before, placeholder(params.last().0), params.last().1)
    }
}

/// Translates a message id and fills its `{name}` placeholders.
pub fn t_format(i18n: &I18n, key: &str, params: &[(&str, &str)]) -> (r: String)
    ensures
        r@ == fill_placeholders(
            translated(i18n@, key@),
            params@.map_values(|p: (&str, &str)| (p.0@, p.1@)),
        ),
{
    let ghost ps = params@.map_values(|p: (&str, &str)| (p.0@, p.1@));
    let text = t(i18n, key);
    let mut cur = chars_of(text.as_str());
    let mut i: usize = 0;
    while i < params.len()
        invariant
            i <= params@.len(),
            ps == params@.map_values(|p: (&str, &str)| (p.0@, p.1@)),
            cur@ == fill_placeholders(text@, ps.subrange(0, i as int)),
        decreases params@.len() - i,
    {
        let (k, v) = params[i];
        let mut pat: Vec<char> = vec!['{'];
        append_chars(&mut pat, &chars_of(k));
        pat.push('}');
        assert(pat@ =~= placeholder(k@));
        let rep = chars_of(v);
        assert(ps.subrange(0, i + 1).drop_last() =~= ps.subrange(0, i as int));
        assert(ps.subrange(0, i + 1).last() == (k@, v@));
        cur = replace_chars(&cur, &pat, &rep);
        i = i + 1;
    }
    assert(ps.subrange(0, params@.len() as int) =~= ps);
    string_of(&cur)
}

/// The language stored when `lang` is chosen: itself when a pack exists,
/// otherwise the default.
pub open spec fn chosen_lang(v: I18nView, lang: Seq<char>) -> Seq<char> {
    if has_pack(v, lang) {
        lang
    } else {
        default_lang()
    }
}

/// Switches the current language; returns the language to persist.
pub fn set_current_lang(i18n: &mut I18n, lang: &str) -> (r: String)
    ensures
        r@ == chosen_lang(old(i18n)@, lang@),
        final(i18n)@ == (I18nView { current: r@, ..old(i18n)@ }),
{
    proof {
        use_type_invariant(&*i18n);
    }
    let key = match i18n.find_pack(lang) {
        Some(_) => lang.to_string(),
        None => "zh-CN".to_string(),
    };
    i18n.current = key.clone();
    key
}

/// The language restored from a saved choice: a known language as is;
/// otherwise `zh_cn`/`zh_CN` mean `zh-CN`, `eng` means `en`, and anything
/// else falls back to `zh-CN`.
pub open spec fn restored_lang(v: I18nView, saved: Seq<char>) -> Seq<char> {
    if has_pack(v, saved) {
        saved
    } else if saved == "zh_cn"@ || saved == "zh_CN"@ {
        "zh-CN"@
    } else if saved == "eng"@ {
        "en"@
    } else {
        "zh-CN"@
    }
}

/// The current language after start-up, given the saved choice (if the
/// file could be read): a non-empty saved choice (trimmed) is restored,
/// otherwise an unset language becomes the default.
pub open spec fn startup_lang(v: I18nView, saved: Option<Seq<char>>) -> Seq<char> {
    match saved {
        Some(s) if trim(s).len() > 0 => restored_lang(v, trim(s)),
        _ => if v.current.len() == 0 {
            default_lang()
        } else {
            v.current
        },
    }
}

/// Applies the saved language choice at start-up.
pub fn restore_lang(i18n: &mut I18n, saved: Option<&str>)
    ensures
        final(i18n)@ == (I18nView {
            current: startup_lang(
                old(i18n)@,
                match saved {
                    Some(s) => Some(s@),
                    None => None,
                },
            ),
            ..old(i18n)@
        }),
{
    proof {
        use_type_invariant(&*i18n);
    }
    let trimmed: Option<Vec<char>> = match saved {
        Some(s) => {
            let t = trim_chars(&chars_of(s));
            if t.len() > 0 {
                Some(t)
            } else {
                None
            }
        },
        None => None,
    };
    match trimmed {
        Some(t) => {
            let s = string_of(&t);
            let key = match i18n.find_pack(s.as_str()) {
                Some(_) => s,
                None => {
                    if str_eq(s.as_str(), "zh_cn") || str_eq(s.as_str(), "zh_CN") {
                        "zh-CN".to_string()
                    } else if str_eq(s.as_str(), "eng") {
                        "en".to_string()
                    } else {
                        "zh-CN".to_string()
                    }
                },
            };
            i18n.current = key;
        },
        None => {
            if i18n.current.unicode_len() == 0 {
                i18n.current = "zh-CN".to_string();
            }
        },
    }
}

/// The built-in Chinese messages.
pub open spec fn builtin_zh() -> Map<Seq<char>, Seq<char>> {
    map![
        "running_success"@ => "RustSync 已启动: {url}"@,
        "wrong_password"@ => "密码错误"@,
        "user_not_found"@ => "用户不存在"@,
        "not_logged_in"@ => "未登录"@,
        "login_success"@ => "登录成功"@,
        "logout_success"@ => "已登出"@,
        "password_changed"@ => "密码修改成功"@,
        "old_password_wrong"@ => "原密码错误"@,
        "engine_added"@ => "引擎添加成功"@,
        "engine_updated"@ => "引擎更新成功"@,
        "engine_deleted"@ => "引擎删除成功"@,
        "engine_not_found"@ => "引擎不存在"@,
        "builtin_engine_protected"@ => "内置引擎不可删除"@,
        "job_added"@ => "作业添加成功"@,
        "job_updated"@ => "作业更新成功"@,
        "job_deleted"@ => "作业删除成功"@,
        "job_not_found"@ => "作业不存在"@,
        "disable_then_edit"@ => "请先禁用作业再编辑"@,
        "disabled_job_cannot_run"@ => "禁用的作业不可手动执行"@,
        "cannot_disable_manual_job"@ => "仅手动执行的作业不可禁用"@,
        "no_job_for_run"@ => "没有可执行的作业"@,
        "notify_added"@ => "通知配置添加成功"@,
        "notify_updated"@ => "通知配置更新成功"@,
        "notify_deleted"@ => "通知配置删除成功"@,
        "notify_not_found"@ => "通知配置不存在"@,
        "mount_added"@ => "挂载目录添加成功"@,
        "mount_updated"@ => "挂载目录更新成功"@,
        "mount_deleted"@ => "挂载目录删除成功"@,
        "mount_not_found"@ => "挂载目录不存在"@,
        "source_target_overlap"@ => "源目录与目标目录存在包含关系"@,
        "file_size_invalid"@ => "文件大小格式无效"@,
        "file_size_range_invalid"@ => "最小文件大小不能大于最大文件大小"@,
        "source_mode_invalid"@ => "源目录模式参数无效"@
    ]
}

/// The built-in English messages.
pub open spec fn builtin_en() -> Map<Seq<char>, Seq<char>> {
    map![
        "running_success"@ => "RustSync started: {url}"@,
        "wrong_password"@ => "Wrong password"@,
        "user_not_found"@ => "User not found"@,
        "not_logged_in"@ => "Not logged in"@,
        "login_success"@ => "Login successful"@,
        "logout_success"@ => "Logged out"@,
        "password_changed"@ => "Password changed"@,
        "old_password_wrong"@ => "Old password is wrong"@,
        "engine_added"@ => "Engine added"@,
        "engine_updated"@ => "Engine updated"@,
        "engine_deleted"@ => "Engine deleted"@,
        "engine_not_found"@ => "Engine not found"@,
        "builtin_engine_protected"@ => "Built-in engine cannot be deleted"@,
        "job_added"@ => "Job added"@,
        "job_updated"@ => "Job updated"@,
        "job_deleted"@ => "Job deleted"@,
        "job_not_found"@ => "Job not found"@,
        "disable_then_edit"@ => "Please disable the job first"@,
        "disabled_job_cannot_run"@ => "Disabled job cannot be run manually"@,
        "cannot_disable_manual_job"@ => "Manual-only job cannot be disabled"@,
        "no_job_for_run"@ => "No jobs available to run"@,
        "notify_added"@ => "Notification config added"@,
        "notify_updated"@ => "Notification config updated"@,
        "notify_deleted"@ => "Notification config deleted"@,
        "notify_not_found"@ => "Notification config not found"@,
        "mount_added"@ => "Mount added"@,
        "mount_updated"@ => "Mount updated"@,
        "mount_deleted"@ => "Mount deleted"@,
        "mount_not_found"@ => "Mount not found"@,
        "source_target_overlap"@ => "Source and target directories overlap"@,
        "file_size_invalid"@ => "Invalid file size format"@,
        "file_size_range_invalid"@ => "Min file size cannot exceed max file size"@,
        "source_mode_invalid"@ => "Invalid source mode parameter"@
    ]
}

/// The built-in packs: Chinese (`zh-CN`) then English (`en`).
pub open spec fn builtin_packs() -> Seq<(Seq<char>, Map<Seq<char>, Seq<char>>)> {
    seq![("zh-CN"@, builtin_zh()), ("en"@, builtin_en())]
}

fn put(m: &mut StringHashMap<String>, k: &str, v: &str)
    ensures
        final(m)@.map_values(|s: String| s@) == old(m)@.map_values(|s: String| s@).insert(k@, v@),
{
    let ghost before = m@;
    m.insert(k.to_string(), v.to_string());
    assert(m@.map_values(|s: String| s@) =~= before.map_values(|s: String| s@).insert(k@, v@));
}

fn zh_pack() -> (p: LanguagePack)
    ensures
        p@ == builtin_zh(),
{
    let mut m: StringHashMap<String> = StringHashMap::new();
    assert(m@.map_values(|s: String| s@) =~= Map::<Seq<char>, Seq<char>>::empty());
    put(&mut m, "running_success", "RustSync 已启动: {url}");
    put(&mut m, "wrong_password", "密码错误");
    put(&mut m, "user_not_found", "用户不存在");
    put(&mut m, "not_logged_in", "未登录");
    put(&mut m, "login_success", "登录成功");
    put(&mut m, "logout_success", "已登出");
    put(&mut m, "password_changed", "密码修改成功");
    put(&mut m, "old_password_wrong", "原密码错误");
    put(&mut m, "engine_added", "引擎添加成功");
    put(&mut m, "engine_updated", "引擎更新成功");
    put(&mut m, "engine_deleted", "引擎删除成功");
    put(&mut m, "engine_not_found", "引擎不存在");
    put(&mut m, "builtin_engine_protected", "内置引擎不可删除");
    put(&mut m, "job_added", "作业添加成功");
    put(&mut m, "job_updated", "作业更新成功");
    put(&mut m, "job_deleted", "作业删除成功");
    put(&mut m, "job_not_found", "作业不存在");
    put(&mut m, "disable_then_edit", "请先禁用作业再编辑");
    put(&mut m, "disabled_job_cannot_run", "禁用的作业不可手动执行");
    put(&mut m, "cannot_disable_manual_job", "仅手动执行的作业不可禁用");
    put(&mut m, "no_job_for_run", "没有可执行的作业");
    put(&mut m, "notify_added", "通知配置添加成功");
    put(&mut m, "notify_updated", "通知配置更新成功");
    put(&mut m, "notify_deleted", "通知配置删除成功");
    put(&mut m, "notify_not_found", "通知配置不存在");
    put(&mut m, "mount_added", "挂载目录添加成功");
    put(&mut m, "mount_updated", "挂载目录更新成功");
    put(&mut m, "mount_deleted", "挂载目录删除成功");
    put(&mut m, "mount_not_found", "挂载目录不存在");
    put(&mut m, "source_target_overlap", "源目录与目标目录存在包含关系");
    put(&mut m, "file_size_invalid", "文件大小格式无效");
    put(&mut m, "file_size_range_invalid", "最小文件大小不能大于最大文件大小");
    put(&mut m, "source_mode_invalid", "源目录模式参数无效");
    LanguagePack { entries: m }
}

fn en_pack() -> (p: LanguagePack)
    ensures
        p@ == builtin_en(),
{
    let mut m: StringHashMap<String> = StringHashMap::new();
    assert(m@.map_values(|s: String| s@) =~= Map::<Seq<char>, Seq<char>>::empty());
    put(&mut m, "running_success", "RustSync started: {url}");
    put(&mut m, "wrong_password", "Wrong password");
    put(&mut m, "user_not_found", "User not found");
    put(&mut m, "not_logged_in", "Not logged in");
    put(&mut m, "login_success", "Login successful");
    put(&mut m, "logout_success", "Logged out");
    put(&mut m, "password_changed", "Password changed");
    put(&mut m, "old_password_wrong", "Old password is wrong");
    put(&mut m, "engine_added", "Engine added");
    put(&mut m, "engine_updated", "Engine updated");
    put(&mut m, "engine_deleted", "Engine deleted");
    put(&mut m, "engine_not_found", "Engine not found");
    put(&mut m, "builtin_engine_protected", "Built-in engine cannot be deleted");
    put(&mut m, "job_added", "Job added");
    put(&mut m, "job_updated", "Job updated");
    put(&mut m, "job_deleted", "Job deleted");
    put(&mut m, "job_not_found", "Job not found");
    put(&mut m, "disable_then_edit", "Please disable the job first");
    put(&mut m, "disabled_job_cannot_run", "Disabled job cannot be run manually");
    put(&mut m, "cannot_disable_manual_job", "Manual-only job cannot be disabled");
    put(&mut m, "no_job_for_run", "No jobs available to run");
    put(&mut m, "notify_added", "Notification config added");
    put(&mut m, "notify_updated", "Notification config updated");
    put(&mut m, "notify_deleted", "Notification config deleted");
    put(&mut m, "notify_not_found", "Notification config not found");
    put(&mut m, "mount_added", "Mount added");
    put(&mut m, "mount_updated", "Mount updated");
    put(&mut m, "mount_deleted", "Mount deleted");
    put(&mut m, "mount_not_found", "Mount not found");
    put(&mut m, "source_target_overlap", "Source and target directories overlap");
    put(&mut m, "file_size_invalid", "Invalid file size format");
    put(&mut m, "file_size_range_invalid", "Min file size cannot exceed max file size");
    put(&mut m, "source_mode_invalid", "Invalid source mode parameter");
    LanguagePack { entries: m }
}

/// The built-in language packs (used when no locale files are present).
pub fn load_builtin_languages() -> (r: Vec<(String, LanguagePack)>)
    ensures
        r@.map_values(|p: (String, LanguagePack)| (p.0@, p.1@)) == builtin_packs(),
{
    let mut r: Vec<(String, LanguagePack)> = Vec::new();
    r.push(("zh-CN".to_string(), zh_pack()));
    r.push(("en".to_string(), en_pack()));
    assert(r@.map_values(|p: (String, LanguagePack)| (p.0@, p.1@)) =~= builtin_packs());
    r
}

} // verus!
