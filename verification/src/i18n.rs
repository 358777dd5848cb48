//! The language-independent parts of choosing and showing interface text:
//! turning an operating-system locale name into a language tag, and
//! falling back from the chosen language to the default one and then to
//! the message identifier itself.
use vstd::prelude::*;
use crate::text::{chars_of, string_of};
use fluent_langneg::{negotiate_languages, NegotiationStrategy};
use unic_langid::LanguageIdentifier;

verus! {

/// The part of a locale name before its first `.` (codeset) or `@`
/// (modifier).
pub open spec fn locale_base(locale: Seq<char>) -> Seq<char>
    decreases locale.len(),
{
    if locale.len() == 0 || locale[0] == '.' || locale[0] == '@' {
        Seq::<char>::empty()
    } else {
        seq![locale[0]] + locale_base(locale.drop_first())
    }
}

/// `s` with every underscore turned into a hyphen.
pub open spec fn underscores_to_hyphens(s: Seq<char>) -> Seq<char> {
    s.map_values(|c: char| if c == '_' { '-' } else { c })
}

/// The language tag for an operating-system locale name such as
/// `ko_KR.UTF-8`: its base, with hyphens for underscores (`ko-KR`).
pub open spec fn locale_tag(locale: Seq<char>) -> Seq<char> {
    underscores_to_hyphens(locale_base(locale))
}

/// The language tag for an operating-system locale name.
pub fn normalize_locale(locale: &str) -> (tag: String)
    ensures
        tag@ == locale_tag(locale@),
{
    let chars = chars_of(locale);
    let mut out: Vec<char> = Vec::new();
    let mut i: usize = 0;
    assert(chars@.skip(0) == chars@);
    while i < chars.len() && chars[i] != '.' && chars[i] != '@'
        invariant
            i <= chars.len(),
            locale_base(chars@) == chars@.take(i as int) + locale_base(chars@.skip(i as int)),
            forall|j: int| 0 <= j < i ==> chars@[j] != '.' && chars@[j] != '@',
            out@ == underscores_to_hyphens(chars@.take(i as int)),
        decreases chars.len() - i,
    {
        let c = chars[i];
        let ghost rest = chars@.skip(i as int);
        assert(rest.drop_first() == chars@.skip(i + 1));
        assert(locale_base(rest) == seq![c] + locale_base(chars@.skip(i + 1)));
        let ghost t = chars@.take(i as int);
        assert(chars@.take(i + 1) == t.push(c));
        if c == '_' {
            out.push('-');
        } else {
            out.push(c);
        }
        assert(out@ =~= underscores_to_hyphens(chars@.take(i + 1)));
        i += 1;
    }
    assert(locale_base(chars@.skip(i as int)) == Seq::<char>::empty());
    proof {
        lemma_locale_base_of_plain(chars@.take(i as int));
    }
    assert(locale_base(chars@) =~= chars@.take(i as int));
    string_of(&out)
}

/// A locale name free of `.` and `@` is its own base.
proof fn lemma_locale_base_of_plain(s: Seq<char>)
    requires
        forall|i: int| 0 <= i < s.len() ==> s[i] != '.' && s[i] != '@',
    ensures
        locale_base(s) == s,
    decreases s.len(),
{
    if s.len() > 0 {
        let s1 = s.drop_first();
        assert forall|i: int| 0 <= i < s1.len() implies s1[i] != '.' && s1[i] != '@' by {
            assert(s1[i] == s[i + 1]);
        }
        lemma_locale_base_of_plain(s1);
        assert(s == seq![s[0]] + s1);
    }
}

/// The text shown for message `id`: the chosen language's message when it
/// has one, else the default language's, else the identifier itself.
pub fn resolve_message(primary: Option<String>, fallback: Option<String>, id: &str) -> (text:
    String)
    ensures
        text@ == match primary {
            Some(p) => p@,
            None => match fallback {
                Some(f) => f@,
                None => id@,
            },
        },
{
    match primary {
        Some(text) => text,
        None => match fallback {
            Some(text) => text,
            None => id.to_owned(),
        },
    }
}

/// What `unic_langid` makes of `s` as a language identifier: its canonical
/// tag (as `LanguageIdentifier`'s `Display` writes it) or the text of the
/// parse error.
pub uninterp spec fn language_tag(s: Seq<char>) -> Result<Seq<char>, Seq<char>>;

/// Whether `unic_langid` orders the language identifier `a` before `b`
/// (each parsed from its tag; text that does not parse counts as the
/// default, empty identifier).
pub uninterp spec fn tag_precedes(a: Seq<char>, b: Seq<char>) -> bool;

/// The first language that `fluent_langneg::negotiate_languages` gives for
/// the requested tags, the available tags (in this order) and the default
/// tag, with the filtering strategy.
pub uninterp spec fn negotiated_first(
    requested: Seq<Seq<char>>,
    available: Seq<Seq<char>>,
    default: Seq<char>,
) -> Option<Seq<char>>;

/// What `str::trim` leaves of `s`.
pub uninterp spec fn trimmed(s: Seq<char>) -> Seq<char>;

/// Parses a language identifier with `LanguageIdentifier::from_str` and
/// writes it back with its `Display`. Trusted: the result is whatever that
/// parse and write give for `s`, named `language_tag`; nothing more is
/// claimed of it.
#[verifier::external_body]
fn parse_language_tag(s: &str) -> (tag: Result<String, String>)
    ensures
        match tag {
            Ok(t) => language_tag(s@) == Ok::<Seq<char>, Seq<char>>(t@),
            Err(e) => language_tag(s@) == Err::<Seq<char>, Seq<char>>(e@),
        },
{
    match s.parse::<LanguageIdentifier>() {
        Ok(language) => Ok(language.to_string()),
        Err(error) => Err(error.to_string()),
    }
}

/// Compares two language identifiers, parsed from their tags, with
/// `LanguageIdentifier`'s derived `Ord`. Trusted: the result is that
/// comparison, named `tag_precedes`.
#[verifier::external_body]
fn language_tag_precedes(a: &str, b: &str) -> (before: bool)
    ensures
        before == tag_precedes(a@, b@),
{
    let a: LanguageIdentifier = a.parse().unwrap_or_default();
    let b: LanguageIdentifier = b.parse().unwrap_or_default();
    a < b
}

/// Calls `fluent_langneg::negotiate_languages` with the filtering strategy
/// on the identifiers parsed from the tags, and gives the first language it
/// returns as a tag. Trusted: the result is that first language, named
/// `negotiated_first`; nothing is claimed of which language it is.
#[verifier::external_body]
fn negotiate_first(requested: &Vec<String>, available: &Vec<String>, default: &str) -> (first:
    Option<String>)
    ensures
        match first {
            Some(t) => negotiated_first(requested.deep_view(), available.deep_view(), default@)
                == Some(t@),
            None => negotiated_first(requested.deep_view(), available.deep_view(), default@) is None,
        },
{
    let parse = |t: &String| t.parse::<LanguageIdentifier>().unwrap_or_default();
    let requested: Vec<LanguageIdentifier> = requested.iter().map(parse).collect();
    let available: Vec<LanguageIdentifier> = available.iter().map(parse).collect();
    let default: LanguageIdentifier = default.parse().unwrap_or_default();
    let negotiated =
        negotiate_languages(&requested, &available, Some(&default), NegotiationStrategy::Filtering);
    negotiated.first().map(|language| language.to_string())
}

/// Trims white space from both ends of `s` with `str::trim`. Trusted: the
/// result is what `str::trim` leaves, named `trimmed`.
#[verifier::external_body]
fn trim_text(s: &str) -> (t: String)
    ensures
        t@ == trimmed(s@),
{
    s.trim().to_owned()
}

/// The name of a locale resource file without its `.ftl` ending, if it has
/// one.
pub open spec fn ftl_stem(path: Seq<char>) -> Option<Seq<char>> {
    if path.len() >= 4 && path.skip(path.len() - 4) == seq!['.', 'f', 't', 'l'] {
        Some(path.take(path.len() - 4))
    } else {
        None
    }
}

/// A locale resource: its language's tag and the resource file.
pub struct LocaleResource {
    pub tag: String,
    pub path: String,
}

impl View for LocaleResource {
    type V = (Seq<char>, Seq<char>);

    open spec fn view(&self) -> (Seq<char>, Seq<char>) {
        (self.tag@, self.path@)
    }
}

/// The resources with `(tag, path)` entered, as an ordered map from tags
/// does it: an entry of the same tag takes the new path, and a new tag goes
/// before the first tag it precedes.
pub open spec fn enter_resource(entries: Seq<(Seq<char>, Seq<char>)>, tag: Seq<char>, path: Seq<char>) -> Seq<(Seq<char>, Seq<char>)>
    decreases entries.len(),
{
    if entries.len() == 0 {
        seq![(tag, path)]
    } else if entries[0].0 == tag {
        entries.update(0, (tag, path))
    } else if tag_precedes(tag, entries[0].0) {
        seq![(tag, path)] + entries
    } else {
        seq![entries[0]] + enter_resource(entries.drop_first(), tag, path)
    }
}

/// The locale resources among the resource files: each `.ftl` file whose
/// name is a language identifier, keyed by its tag, in the identifiers'
/// order, a later file of the same language replacing an earlier one.
pub open spec fn locale_resources(paths: Seq<Seq<char>>) -> Seq<(Seq<char>, Seq<char>)>
    decreases paths.len(),
{
    if paths.len() == 0 {
        Seq::empty()
    } else {
        let earlier = locale_resources(paths.drop_last());
        match ftl_stem(paths.last()) {
            Some(stem) => match language_tag(stem) {
                Ok(tag) => enter_resource(earlier, tag, paths.last()),
                Err(_) => earlier,
            },
            None => earlier,
        }
    }
}

/// The path of the first resource of language `tag`.
pub open spec fn resource_path(entries: Seq<(Seq<char>, Seq<char>)>, tag: Seq<char>) -> Option<Seq<char>>
    decreases entries.len(),
{
    if entries.len() == 0 {
        None
    } else if entries[0].0 == tag {
        Some(entries[0].1)
    } else {
        resource_path(entries.drop_first(), tag)
    }
}

/// The languages that the system's locales ask for: the tag of each locale
/// name that is a language identifier once normalized, in order.
pub open spec fn requested_tags(locales: Seq<Seq<char>>) -> Seq<Seq<char>>
    decreases locales.len(),
{
    if locales.len() == 0 {
        Seq::empty()
    } else {
        let earlier = requested_tags(locales.drop_last());
        match language_tag(locale_tag(locales.last())) {
            Ok(tag) => earlier.push(tag),
            Err(_) => earlier,
        }
    }
}

/// The interface languages chosen: the primary one's tag and resource, and
/// the default one's tag and resource as a fallback when it differs.
pub struct LocaleChoice {
    pub primary_tag: String,
    pub primary_path: String,
    pub fallback: Option<(String, String)>,
}

/// Which locale resources to load: the language that the system's locales
/// ask for when a resource matches, else the default language. Fails when
/// the default text is no language identifier (with the parse error's
/// text), when the default language has no resource, or when the chosen
/// language has none.
pub fn choose_locale(default_text: &str, resource_paths: &Vec<String>, system_locales: &Vec<String>) -> (result: Result<LocaleChoice, String>)
    ensures
        match language_tag(trimmed(default_text@)) {
            Err(e) => result matches Err(m) && m@ == e,
            Ok(default) => {
                let entries = locale_resources(resource_paths.deep_view());
                let available = entries.map_values(|e: (Seq<char>, Seq<char>)| e.0);
                let requested = requested_tags(system_locales.deep_view());
                let selected = match negotiated_first(requested, available, default) {
                    Some(t) => t,
                    None => default,
                };
                if resource_path(entries, default) is None {
                    result matches Err(m) && m@ == "default locale has no Fluent resource"@
                } else {
                    match resource_path(entries, selected) {
                        None => result matches Err(m) && m@
                            == "negotiated locale has no Fluent resource"@,
                        Some(path) => result matches Ok(choice) && choice.primary_tag@ == selected
                            && choice.primary_path@ == path && if selected == default {
                            choice.fallback is None
                        } else {
                            choice.fallback matches Some(f) && f.0@ == default && Some(f.1@)
                                == resource_path(entries, default)
                        },
                    }
                }
            },
        },
{
    let trimmed_default = trim_text(default_text);
    let default = match parse_language_tag(trimmed_default.as_str()) {
        Ok(tag) => tag,
        Err(error) => {
            return Err(error);
        },
    };
    let entries = collect_resources(resource_paths);
    let default_path = match find_resource(&entries, default.as_str()) {
        Some(path) => path,
        None => {
            return Err(String::from_str("default locale has no Fluent resource"));
        },
    };
    let requested = collect_requested(system_locales);
    let mut available: Vec<String> = Vec::new();
    let mut k: usize = 0;
    while k < entries.len()
        invariant
            k <= entries.len(),
            available.deep_view() == entries@.map_values(|r: LocaleResource| r@).take(k as int).map_values(
                |e: (Seq<char>, Seq<char>)| e.0,
            ),
        decreases entries.len() - k,
    {
        let tag = entries[k].tag.clone();
        let ghost av = available.deep_view();
        let ghost tv = tag@;
        available.push(tag);
        assert(available.deep_view() =~= av.push(tv));
        assert(entries@.map_values(|r: LocaleResource| r@).take(k + 1).map_values(
            |e: (Seq<char>, Seq<char>)| e.0,
        ) =~= entries@.map_values(|r: LocaleResource| r@).take(k as int).map_values(
            |e: (Seq<char>, Seq<char>)| e.0,
        ).push(tv));
        assert(available.deep_view() =~= entries@.map_values(|r: LocaleResource| r@).take(k + 1).map_values(
            |e: (Seq<char>, Seq<char>)| e.0,
        ));
        k += 1;
    }
    assert(entries@.map_values(|r: LocaleResource| r@).take(entries.len() as int) == entries@.map_values(|r: LocaleResource| r@));
    let selected = match negotiate_first(&requested, &available, default.as_str()) {
        Some(tag) => tag,
        None => default.clone(),
    };
    let primary_path = match find_resource(&entries, selected.as_str()) {
        Some(path) => path,
        None => {
            return Err(String::from_str("negotiated locale has no Fluent resource"));
        },
    };
    let fallback = if !(selected == default) {
        Some((default, default_path))
    } else {
        None
    };
    Ok(LocaleChoice { primary_tag: selected, primary_path, fallback })
}

/// The locale resources among the resource files.
fn collect_resources(paths: &Vec<String>) -> (entries: Vec<LocaleResource>)
    ensures
        entries@.map_values(|r: LocaleResource| r@) == locale_resources(paths.deep_view()),
{
    let mut entries: Vec<LocaleResource> = Vec::new();
    let mut k: usize = 0;
    while k < paths.len()
        invariant
            k <= paths.len(),
            entries@.map_values(|r: LocaleResource| r@) == locale_resources(paths.deep_view().take(k as int)),
        decreases paths.len() - k,
    {
        assert(paths.deep_view().take(k + 1).drop_last() == paths.deep_view().take(k as int));
        assert(paths.deep_view().take(k + 1).last() == paths[k as int]@);
        let path = paths[k].as_str();
        match ftl_stem_of(path) {
            Some(stem) => match parse_language_tag(stem.as_str()) {
                Ok(tag) => {
                    enter(&mut entries, tag, paths[k].clone());
                },
                Err(_) => {},
            },
            None => {},
        }
        k += 1;
    }
    assert(paths.deep_view().take(paths.len() as int) == paths.deep_view());
    entries
}

/// Enters a resource into the ordered resources.
fn enter(entries: &mut Vec<LocaleResource>, tag: String, path: String)
    ensures
        final(entries)@.map_values(|r: LocaleResource| r@) == enter_resource(
            old(entries)@.map_values(|r: LocaleResource| r@),
            tag@,
            path@,
        ),
{
    let ghost e = old(entries)@.map_values(|r: LocaleResource| r@);
    let mut k: usize = 0;
    assert(e.take(0) + enter_resource(e.skip(0), tag@, path@) =~= enter_resource(e, tag@, path@)) by {
        assert(e.skip(0) == e);
    }
    let mut stop = false;
    while k < entries.len() && !stop
        invariant
            k <= entries.len(),
            entries@.map_values(|r: LocaleResource| r@) == e,
            e.take(k as int) + enter_resource(e.skip(k as int), tag@, path@) == enter_resource(e, tag@, path@),
            stop ==> k < entries.len() && (e[k as int].0 == tag@ || tag_precedes(tag@, e[k as int].0)),
        decreases entries.len() - k + if stop { 0int } else { 1int },
    {
        assert(e[k as int] == entries[k as int]@);
        if entries[k].tag == tag || language_tag_precedes(tag.as_str(), entries[k].tag.as_str()) {
            stop = true;
        } else {
            let ghost rest = e.skip(k as int);
            assert(rest[0] == e[k as int]);
            assert(rest.drop_first() == e.skip(k + 1));
            assert(e.take(k + 1) == e.take(k as int).push(e[k as int]));
            assert(e.take(k as int) + (seq![rest[0]] + enter_resource(rest.drop_first(), tag@, path@)) == e.take(k + 1) + enter_resource(e.skip(k + 1), tag@, path@));
            k += 1;
        }
    }
    let ghost rest = e.skip(k as int);
    let ghost tv = tag@;
    let ghost pv = path@;
    assert(stop ==> rest[0] == e[k as int]);
    if k == entries.len() {
        assert(rest == Seq::<(Seq<char>, Seq<char>)>::empty());
        assert(enter_resource(rest, tv, pv) == seq![(tv, pv)]);
        entries.push(LocaleResource { tag, path });
        assert(entries@.map_values(|r: LocaleResource| r@) =~= e.take(k as int) + seq![(tv, pv)]);
        assert(e.take(k as int) == e);
    } else if entries[k].tag == tag {
        assert(rest[0] == e[k as int]);
        assert(rest[0].0 == tv);
        assert(enter_resource(rest, tv, pv) == rest.update(0, (tv, pv)));
        entries.set(k, LocaleResource { tag, path });
        assert(entries@.map_values(|r: LocaleResource| r@) =~= e.take(k as int) + rest.update(0, (tv, pv)));
    } else {
        assert(rest[0] == e[k as int]);
        assert(rest[0].0 != tv);
        assert(tag_precedes(tv, rest[0].0));
        assert(enter_resource(rest, tv, pv) == seq![(tv, pv)] + rest);
        entries.insert(k, LocaleResource { tag, path });
        assert(entries@.map_values(|r: LocaleResource| r@) =~= e.take(k as int) + (seq![(tv, pv)] + rest));
    }
}

/// The path of the first resource of language `tag`.
fn find_resource(entries: &Vec<LocaleResource>, tag: &str) -> (path: Option<String>)
    ensures
        match path {
            Some(p) => resource_path(entries@.map_values(|r: LocaleResource| r@), tag@) == Some(p@),
            None => resource_path(entries@.map_values(|r: LocaleResource| r@), tag@) is None,
        },
{
    let ghost e = entries@.map_values(|r: LocaleResource| r@);
    let wanted = tag.to_owned();
    let mut k: usize = 0;
    assert(e.skip(0) == e);
    while k < entries.len()
        invariant
            k <= entries.len(),
            e == entries@.map_values(|r: LocaleResource| r@),
            wanted@ == tag@,
            resource_path(e, tag@) == resource_path(e.skip(k as int), tag@),
        decreases entries.len() - k,
    {
        assert(e.skip(k as int)[0] == entries[k as int]@);
        assert(e.skip(k as int).drop_first() == e.skip(k + 1));
        assert(e[k as int] == entries[k as int]@);
        if entries[k].tag == wanted {
            let path = entries[k].path.clone();
            assert(e.skip(k as int)[0].0 == tag@);
            return Some(path);
        }
        k += 1;
    }
    assert(e.skip(k as int) == Seq::<(Seq<char>, Seq<char>)>::empty());
    None
}

/// The tags of the languages that the system's locales ask for.
fn collect_requested(locales: &Vec<String>) -> (tags: Vec<String>)
    ensures
        tags.deep_view() == requested_tags(locales.deep_view()),
{
    let mut tags: Vec<String> = Vec::new();
    let mut k: usize = 0;
    while k < locales.len()
        invariant
            k <= locales.len(),
            tags.deep_view() == requested_tags(locales.deep_view().take(k as int)),
        decreases locales.len() - k,
    {
        assert(locales.deep_view().take(k + 1).drop_last() == locales.deep_view().take(k as int));
        assert(locales.deep_view().take(k + 1).last() == locales[k as int]@);
        let normalized = normalize_locale(locales[k].as_str());
        match parse_language_tag(normalized.as_str()) {
            Ok(tag) => {
                let ghost tv = tags.deep_view();
                let ghost t = tag@;
                tags.push(tag);
                assert(tags.deep_view() =~= tv.push(t));
            },
            Err(_) => {},
        }
        k += 1;
    }
    assert(locales.deep_view().take(locales.len() as int) == locales.deep_view());
    tags
}

/// The name of a resource file without its `.ftl` ending, if it has one.
fn ftl_stem_of(path: &str) -> (stem: Option<String>)
    ensures
        match stem {
            Some(s) => ftl_stem(path@) == Some(s@),
            None => ftl_stem(path@) is None,
        },
{
    let chars = chars_of(path);
    let n = chars.len();
    if n >= 4 && chars[n - 4] == '.' && chars[n - 3] == 'f' && chars[n - 2] == 't' && chars[n - 1] == 'l' {
        assert(chars@.skip(n - 4) =~= seq!['.', 'f', 't', 'l']);
        let mut stem: Vec<char> = Vec::new();
        let mut j: usize = 0;
        while j < n - 4
            invariant
                j <= n - 4,
                n == chars.len(),
                n >= 4,
                stem@ == chars@.take(j as int),
            decreases n - 4 - j,
        {
            stem.push(chars[j]);
            assert(chars@.take(j + 1) == chars@.take(j as int).push(chars@[j as int]));
            j += 1;
        }
        Some(string_of(&stem))
    } else {
        if n >= 4 {
            assert(chars@.skip(n - 4) != seq!['.', 'f', 't', 'l']) by {
                if chars@.skip(n - 4) == seq!['.', 'f', 't', 'l'] {
                    assert(chars@.skip(n - 4)[0] == chars@[n - 4]);
                    assert(chars@.skip(n - 4)[1] == chars@[n - 3]);
                    assert(chars@.skip(n - 4)[2] == chars@[n - 2]);
                    assert(chars@.skip(n - 4)[3] == chars@[n - 1]);
                }
            }
        }
        None
    }
}

/// Law: the system's locales are asked for in the system's order. A locale
/// put in front of others is asked for before all of theirs (when its name
/// is a language identifier), and the rest keep their order.
pub proof fn lemma_requested_in_system_order(first: Seq<char>, rest: Seq<Seq<char>>)
    ensures
        requested_tags(seq![first] + rest) == match language_tag(locale_tag(first)) {
            Ok(tag) => seq![tag] + requested_tags(rest),
            Err(_) => requested_tags(rest),
        },
    decreases rest.len(),
{
    let all = seq![first] + rest;
    if rest.len() == 0 {
        assert(all.drop_last() =~= Seq::<Seq<char>>::empty());
        assert(all.last() == first);
        assert(requested_tags(all.drop_last()) =~= Seq::<Seq<char>>::empty());
        assert(requested_tags(rest) =~= Seq::<Seq<char>>::empty());
        match language_tag(locale_tag(first)) {
            Ok(tag) => {
                assert(Seq::<Seq<char>>::empty().push(tag) =~= seq![tag] + Seq::<Seq<char>>::empty());
            },
            Err(_) => {},
        }
    } else {
        lemma_requested_in_system_order(first, rest.drop_last());
        assert(all.drop_last() =~= seq![first] + rest.drop_last());
        assert(all.last() == rest.last());
        assert(all.len() > 0);
        let earlier = requested_tags(rest.drop_last());
        assert(requested_tags(rest) == match language_tag(locale_tag(rest.last())) {
            Ok(t) => earlier.push(t),
            Err(_) => earlier,
        });
        assert(requested_tags(all) == match language_tag(locale_tag(rest.last())) {
            Ok(t) => requested_tags(all.drop_last()).push(t),
            Err(_) => requested_tags(all.drop_last()),
        });
        match language_tag(locale_tag(first)) {
            Ok(tag) => match language_tag(locale_tag(rest.last())) {
                Ok(t) => {
                    assert((seq![tag] + earlier).push(t) =~= seq![tag] + earlier.push(t));
                },
                Err(_) => {},
            },
            Err(_) => {},
        }
    }
}

/// Law: the system's most preferred locale is asked for first: when the
/// first system locale's name is a language identifier, its tag heads the
/// requested languages.
pub proof fn lemma_first_locale_requested_first(locales: Seq<Seq<char>>, tag: Seq<char>)
    requires
        locales.len() > 0,
        language_tag(locale_tag(locales[0])) == Ok::<Seq<char>, Seq<char>>(tag),
    ensures
        requested_tags(locales).len() > 0,
        requested_tags(locales)[0] == tag,
{
    assert(locales =~= seq![locales[0]] + locales.drop_first());
    lemma_requested_in_system_order(locales[0], locales.drop_first());
}

} // verus!

