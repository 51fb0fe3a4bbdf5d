//! What the environment says: languages, dark mode, screen density.

use crate::text;
use vstd::prelude::*;
use vstd::utf8::*;

verus! {

/// The position of the first of two characters, or the length where there is neither.
pub open spec fn first_of(s: Seq<char>, a: char, b: char) -> int {
    let i = text::first_at(s, a, 0);
    let j = text::first_at(s, b, 0);
    if i <= j { i } else { j }
}

/// Every underscore becomes a hyphen.
pub open spec fn hyphenated(s: Seq<char>) -> Seq<char> {
    Seq::new(s.len(), |i: int| if s[i] == '_' { '-' } else { s[i] })
}

/// The language tag of a locale name: the name without its encoding and modifier, with hyphens.
/// The locales that name no language have none.
pub open spec fn tag_of(s: Seq<char>) -> Option<Seq<char>> {
    let base = text::trimmed(s.take(first_of(s, '.', '@')));
    if base.len() == 0 || base == "C"@ || base == "POSIX"@ {
        None
    } else {
        Some(hyphenated(base))
    }
}

/// The language tag of a locale name.
pub fn posix_to_bcp47(s: &str) -> (r: Option<String>)
    ensures
        text::opt_text(r) == tag_of(s@),
{
    let c = text::chars_of(s);
    match bcp47(&c) {
        Some(tag) => Some(text::string_of(&tag)),
        None => None,
    }
}

fn bcp47(s: &[char]) -> (r: Option<Vec<char>>)
    ensures
        match r {
            Some(t) => tag_of(s@) == Some(t@),
            None => tag_of(s@) is None,
        },
{
    let dot: usize = text::find(s, '.', 0);
    let at: usize = text::find(s, '@', 0);
    let end: usize = if dot <= at { dot } else { at };
    let head = text::sub_chars(s, 0, end);
    assert(head@ =~= s@.take(first_of(s@, '.', '@')));
    let mut base = text::trim(&head);
    let c = text::chars_of("C");
    let posix = text::chars_of("POSIX");
    if base.len() == 0 || text::same_chars(&base, &c) || text::same_chars(&base, &posix) {
        return None;
    }
    let ghost name = base@;
    let n: usize = base.len();
    let mut i: usize = 0;
    while i < n
        invariant
            i <= n,
            n == name.len(),
            n == base@.len(),
            forall|j: int| 0 <= j < i ==> #[trigger] base@[j] == hyphenated(name)[j],
            forall|j: int| i <= j < n ==> #[trigger] base@[j] == name[j],
        decreases n - i,
    {
        if base[i] == '_' {
            base[i] = '-';
        }
        i += 1;
    }
    assert(base@ =~= hyphenated(name));
    Some(base)
}

/// A list of tags with one more, if it is not in it.
pub open spec fn with_tag(tags: Seq<Seq<char>>, tag: Option<Seq<char>>) -> Seq<Seq<char>> {
    match tag {
        Some(t) => if tags.contains(t) { tags } else { tags.push(t) },
        None => tags,
    }
}

/// The tags of the first `n` of some locale names, each once, in order.
pub open spec fn tags_of(names: Seq<Seq<char>>, n: int) -> Seq<Seq<char>>
    decreases n,
{
    if n <= 0 {
        Seq::empty()
    } else {
        with_tag(tags_of(names, n - 1), tag_of(names[n - 1]))
    }
}

/// A setting that is set and not empty.
pub open spec fn given(v: Option<Seq<char>>) -> Option<Seq<char>> {
    match v {
        Some(s) => if s.len() > 0 { Some(s) } else { None },
        None => None,
    }
}

/// The first of three settings that is set and not empty.
pub open spec fn first_given(
    a: Option<Seq<char>>,
    b: Option<Seq<char>>,
    c: Option<Seq<char>>,
) -> Option<Seq<char>> {
    if given(a) is Some {
        given(a)
    } else if given(b) is Some {
        given(b)
    } else {
        given(c)
    }
}

/// The preferred languages: those of the list in order, then that of the first locale setting;
/// each once.
pub open spec fn languages(
    list: Option<Seq<char>>,
    all: Option<Seq<char>>,
    messages: Option<Seq<char>>,
    lang: Option<Seq<char>>,
) -> Seq<Seq<char>> {
    let listed = match given(list) {
        Some(l) => {
            let names = text::split(l, ':');
            tags_of(names, names.len() as int)
        },
        None => Seq::empty(),
    };
    match first_given(all, messages, lang) {
        Some(v) => with_tag(listed, tag_of(v)),
        None => listed,
    }
}

fn push_tag(out: &mut Vec<String>, name: &[char])
    ensures
        text::texts(final(out)@) == with_tag(text::texts(old(out)@), tag_of(name@)),
{
    if let Some(tag) = bcp47(name) {
        let t = text::string_of(&tag);
        let ghost before = text::texts(out@);
        let mut i: usize = 0;
        while i < out.len()
            invariant
                i <= out@.len(),
                before == text::texts(out@),
                *out == *old(out),
                t@ == tag@,
                tag_of(name@) == Some(tag@),
                forall|j: int| 0 <= j < i ==> #[trigger] before[j] != t@,
            decreases out@.len() - i,
        {
            if text::same_text(out[i].as_str(), t.as_str()) {
                assert(before[i as int] == t@);
                return;
            }
            i += 1;
        }
        out.push(t);
        assert(text::texts(out@) =~= before.push(t@));
    }
}

fn nonempty(v: &Option<String>) -> (r: Option<Vec<char>>)
    ensures
        match r {
            Some(s) => given(text::opt_text(*v)) == Some(s@),
            None => given(text::opt_text(*v)) is None,
        },
{
    match v {
        Some(s) => {
            let chars = text::chars_of(s.as_str());
            if chars.len() > 0 {
                Some(chars)
            } else {
                None
            }
        },
        None => None,
    }
}

/// The preferred languages from the values of `LANGUAGE`, `LC_ALL`, `LC_MESSAGES` and `LANG`.
pub fn locales_of(
    list: &Option<String>,
    all: &Option<String>,
    messages: &Option<String>,
    lang: &Option<String>,
) -> (r: Vec<String>)
    ensures
        text::texts(r@) == languages(
            text::opt_text(*list),
            text::opt_text(*all),
            text::opt_text(*messages),
            text::opt_text(*lang),
        ),
{
    let mut out: Vec<String> = Vec::new();
    assert(text::texts(out@) =~= Seq::empty());
    if let Some(l) = nonempty(list) {
        let names = text::split_at(&l, ':');
        let ghost all_names = text::split(l@, ':');
        let mut i: usize = 0;
        while i < names.len()
            invariant
                i <= names@.len(),
                text::rows(names@) == all_names,
                text::texts(out@) == tags_of(all_names, i as int),
            decreases names@.len() - i,
        {
            assert(all_names[i as int] == names@[i as int]@);
            push_tag(&mut out, &names[i]);
            i += 1;
        }
    }
    let first = match nonempty(all) {
        Some(v) => Some(v),
        None => match nonempty(messages) {
            Some(v) => Some(v),
            None => nonempty(lang),
        },
    };
    if let Some(v) = first {
        push_tag(&mut out, &v);
    }
    out
}

/// The preferred languages, by a function that looks a setting up.
pub fn locales_from<G: Fn(&str) -> Option<String>>(get: G) -> (r: Vec<String>)
    requires
        forall|k: &str| #[trigger] call_requires(get, (k,)),
    ensures
        exists|a: Option<String>, b: Option<String>, c: Option<String>, d: Option<String>|
            #![trigger call_ensures(get, ("LANGUAGE",), a), call_ensures(get, ("LC_ALL",), b), call_ensures(get, ("LC_MESSAGES",), c), call_ensures(get, ("LANG",), d)]
            call_ensures(get, ("LANGUAGE",), a) && call_ensures(get, ("LC_ALL",), b)
                && call_ensures(get, ("LC_MESSAGES",), c) && call_ensures(get, ("LANG",), d)
                && text::texts(r@) == languages(
                text::opt_text(a),
                text::opt_text(b),
                text::opt_text(c),
                text::opt_text(d),
            ),
{
    let list = get("LANGUAGE");
    let all = get("LC_ALL");
    let messages = get("LC_MESSAGES");
    let lang = get("LANG");
    locales_of(&list, &all, &messages, &lang)
}

/// A theme name that asks for the dark variant.
pub open spec fn dark_theme(name: Seq<char>) -> bool {
    ":dark"@.is_suffix_of(text::lowered(name)) || "-dark"@.is_suffix_of(text::lowered(name))
}

/// A theme name that asks for the dark variant.
pub fn theme_is_dark(name: &str) -> (r: bool)
    ensures
        r == dark_theme(name@),
{
    let chars = text::chars_of(name);
    let low = text::lower_all(&chars);
    text::ends_with(&low, ":dark") || text::ends_with(&low, "-dark")
}

/// What the desktop's settings program printed names a dark scheme.
pub fn scheme_is_dark(printed: &[u8]) -> (r: bool)
    ensures
        r == text::has_part(text::lossy_text(printed@), "dark"@),
        valid_utf8(printed@) ==> r == text::has_part(decode_utf8(printed@), "dark"@),
{
    let decoded = text::from_utf8_lossy(printed);
    names_dark(decoded.as_str())
}

/// A scheme's name holds the word for dark.
pub fn names_dark(name: &str) -> (r: bool)
    ensures
        r == text::has_part(name@, "dark"@),
{
    let chars = text::chars_of(name);
    text::contains(&chars, "dark")
}

/// The values of the density resource in some lines, in order.
pub open spec fn density_values(lines: Seq<Seq<char>>, n: int) -> Seq<Seq<char>>
    decreases n,
{
    if n <= 0 {
        Seq::empty()
    } else {
        let line = lines[n - 1];
        let colon = text::first_at(line, ':', 0);
        let before = density_values(lines, n - 1);
        if colon < line.len() && text::trimmed(line.take(colon)) == "Xft.dpi"@ {
            before.push(text::trimmed(line.skip(colon + 1)))
        } else {
            before
        }
    }
}

/// The values that the resource database gives for the screen's density, in order. The first
/// one that is a number counts.
pub fn xft_dpi_values(resources: &str) -> (r: Vec<String>)
    ensures
        text::texts(r@) == density_values(
            text::lines(resources@),
            text::lines(resources@).len() as int,
        ),
{
    let chars = text::chars_of(resources);
    let lines = text::lines_of(&chars);
    let ghost all = text::lines(resources@);
    let name = text::chars_of("Xft.dpi");
    let mut out: Vec<String> = Vec::new();
    let mut i: usize = 0;
    assert(text::texts(out@) =~= Seq::empty());
    while i < lines.len()
        invariant
            i <= lines@.len(),
            text::rows(lines@) == all,
            name@ == "Xft.dpi"@,
            text::texts(out@) == density_values(all, i as int),
        decreases lines@.len() - i,
    {
        let line = &lines[i];
        assert(all[i as int] == line@);
        let colon: usize = text::find(line, ':', 0);
        if colon < line.len() {
            let key = text::sub_chars(line, 0, colon);
            assert(key@ =~= line@.take(colon as int));
            let key = text::trim(&key);
            if text::same_chars(&key, &name) {
                let value = text::sub_chars(line, colon + 1, line.len());
                assert(value@ =~= line@.skip(colon + 1));
                let value = text::trim(&value);
                let ghost before = out@;
                out.push(text::string_of(&value));
                assert(text::texts(out@) =~= text::texts(before).push(value@));
            }
        }
        i += 1;
    }
    out
}

/// No language is listed twice.
pub proof fn languages_are_distinct(
    list: Option<Seq<char>>,
    all: Option<Seq<char>>,
    messages: Option<Seq<char>>,
    lang: Option<Seq<char>>,
)
    ensures
        languages(list, all, messages, lang).no_duplicates(),
{
    if let Some(l) = given(list) {
        let names = text::split(l, ':');
        tags_are_distinct(names, names.len() as int);
    }
}

proof fn tags_are_distinct(names: Seq<Seq<char>>, n: int)
    ensures
        tags_of(names, n).no_duplicates(),
    decreases n,
{
    if n > 0 {
        tags_are_distinct(names, n - 1);
    }
}

/// The list of languages comes before the locale settings: its tags keep their places whatever
/// those say.
pub proof fn the_list_comes_first(
    list: Option<Seq<char>>,
    all: Option<Seq<char>>,
    messages: Option<Seq<char>>,
    lang: Option<Seq<char>>,
)
    ensures
        languages(list, None, None, None).is_prefix_of(languages(list, all, messages, lang)),
        languages(list, all, messages, lang).len() <= languages(list, None, None, None).len() + 1,
{
    let a = languages(list, None, None, None);
    let b = languages(list, all, messages, lang);
    assert(b.subrange(0, a.len() as int) =~= a);
}

/// The tag of a locale name is its language and country with a hyphen between them: what comes
/// behind a full stop or an at sign does not matter, and the two names that are no language have
/// no tag.
pub proof fn tags_are_the_names_with_hyphens(base: Seq<char>, rest: Seq<char>)
    requires
        base.len() > 0,
        !base.contains('.'),
        !base.contains('@'),
        !text::white_space(base[0]),
        !text::white_space(base.last()),
        rest.len() > 0 ==> rest[0] == '.' || rest[0] == '@',
    ensures
        ({
            let no_language = base == seq!['C'] || base == seq!['P', 'O', 'S', 'I', 'X'];
            &&& tag_of(base + rest) is None <==> no_language
            &&& tag_of(base + rest) matches Some(t) ==> {
                &&& t.len() == base.len()
                &&& forall|i: int|
                    0 <= i < t.len() ==> #[trigger] t[i] == (if base[i] == '_' {
                        '-'
                    } else {
                        base[i]
                    })
                &&& !t.contains('_')
            }
        }),
{
    reveal_strlit("C");
    reveal_strlit("POSIX");
    let s = base + rest;
    let n = base.len() as int;
    assert forall|i: int| 0 <= i < n implies s[i] != '.' && s[i] != '@' by {
        assert(s[i] == base[i]);
        assert(base.contains(base[i]));
    }
    dots_and_signs(s, '.', n);
    dots_and_signs(s, '@', n);
    if rest.len() > 0 {
        assert(s[n] == rest[0]);
        if rest[0] == '.' {
            text::the_first_is_found(s, '.', 0, n);
        } else {
            text::the_first_is_found(s, '@', 0, n);
        }
    }
    assert(first_of(s, '.', '@') == n);
    assert(s.take(n) =~= base);
    let e = Seq::<char>::empty();
    text::trimming_takes_the_space_around(e, base, e);
    assert(e + base + e =~= base);
    assert("C"@ =~= seq!['C']);
    assert("POSIX"@ =~= seq!['P', 'O', 'S', 'I', 'X']);
}

proof fn dots_and_signs(s: Seq<char>, c: char, n: int)
    requires
        0 <= n <= s.len(),
        forall|i: int| 0 <= i < n ==> s[i] != c,
    ensures
        n <= text::first_at(s, c, 0) <= s.len(),
{
    first_is_not_before(s, c, 0, n);
}

proof fn first_is_not_before(s: Seq<char>, c: char, from: int, n: int)
    requires
        0 <= from <= s.len(),
        0 <= n <= s.len(),
        forall|i: int| 0 <= i < n ==> s[i] != c,
    ensures
        n <= text::first_at(s, c, from) <= s.len() || from > n,
        from <= text::first_at(s, c, from) <= s.len(),
    decreases s.len() - from,
{
    if from < s.len() && s[from] != c {
        first_is_not_before(s, c, from + 1, n);
    }
}

/// The locale settings are looked at in turn, the one for everything first, then the one for
/// messages, then the general one; one that is empty counts as not set.
pub proof fn the_first_setting_counts(
    a: Option<Seq<char>>,
    b: Option<Seq<char>>,
    c: Option<Seq<char>>,
    s: Seq<char>,
)
    requires
        s.len() > 0,
    ensures
        first_given(Some(s), b, c) == Some(s),
        first_given(None, Some(s), c) == Some(s),
        first_given(None, None, Some(s)) == Some(s),
        first_given(Some(Seq::empty()), b, c) == first_given(None, b, c),
        first_given(a, Some(Seq::empty()), c) == first_given(a, None, c),
        first_given(a, b, Some(Seq::empty())) == first_given(a, b, None),
        first_given(None, None, None) is None,
{
}

/// The tags of a list are those of its names, in the order in which they first come.
pub proof fn tags_come_from_their_names(names: Seq<Seq<char>>, n: int, t: Seq<char>)
    requires
        0 <= n <= names.len(),
    ensures
        tags_of(names, n).contains(t) <==> exists|i: int|
            0 <= i < n && tag_of(#[trigger] names[i]) == Some(t),
        n > 0 ==> tags_of(names, n - 1).is_prefix_of(tags_of(names, n)),
    decreases n,
{
    if n > 0 {
        tags_come_from_their_names(names, n - 1, t);
        let before = tags_of(names, n - 1);
        let all = tags_of(names, n);
        if before.contains(t) {
            let k = choose|k: int| 0 <= k < before.len() && before[k] == t;
            assert(all[k] == t);
        }
        if all.contains(t) && !before.contains(t) {
            let k = choose|k: int| 0 <= k < all.len() && all[k] == t;
            if k < before.len() {
                assert(before[k] == t);
            }
            assert(tag_of(names[n - 1]) == Some(t));
        }
        if tag_of(names[n - 1]) == Some(t) && !before.contains(t) {
            assert(all[before.len() as int] == t);
        }
        assert(all.subrange(0, before.len() as int) =~= before);
    }
}

/// The languages are those of the list, in its order, and that of the settings, whichever of the
/// two they come from.
pub proof fn languages_come_from_the_settings(
    names: Seq<Seq<char>>,
    all: Option<Seq<char>>,
    messages: Option<Seq<char>>,
    lang: Option<Seq<char>>,
    t: Seq<char>,
)
    requires
        names.len() > 0,
        text::joined(names, ':').len() > 0,
        forall|i: int| 0 <= i < names.len() ==> !(#[trigger] names[i]).contains(':'),
    ensures
        languages(Some(text::joined(names, ':')), all, messages, lang).contains(t) <==> (exists|i: int|
            0 <= i < names.len() && tag_of(#[trigger] names[i]) == Some(t)) || (first_given(
            all,
            messages,
            lang,
        ) matches Some(v) && tag_of(v) == Some(t)),
{
    text::splitting_undoes_joining(names, ':');
    tags_come_from_their_names(names, names.len() as int, t);
    let listed = tags_of(names, names.len() as int);
    let out = languages(Some(text::joined(names, ':')), all, messages, lang);
    if listed.contains(t) {
        let k = choose|k: int| 0 <= k < listed.len() && listed[k] == t;
        assert(out[k] == t);
    }
    if let Some(v) = first_given(all, messages, lang) {
        if tag_of(v) == Some(t) && !listed.contains(t) {
            assert(out[listed.len() as int] == t);
        }
    }
    if out.contains(t) && !listed.contains(t) {
        let k = choose|k: int| 0 <= k < out.len() && out[k] == t;
        if k < listed.len() {
            assert(listed[k] == t);
        }
    }
}

/// A theme is dark when its name ends in the word, in any case, behind a colon or a hyphen.
pub proof fn dark_themes_end_in_the_word(name: Seq<char>)
    ensures
        dark_theme(name) <==> name.len() >= 5 && {
            let n = name.len();
            &&& name[n - 5] == ':' || name[n - 5] == '-'
            &&& name[n - 4] == 'd' || name[n - 4] == 'D'
            &&& name[n - 3] == 'a' || name[n - 3] == 'A'
            &&& name[n - 2] == 'r' || name[n - 2] == 'R'
            &&& name[n - 1] == 'k' || name[n - 1] == 'K'
        },
{
    reveal_strlit(":dark");
    reveal_strlit("-dark");
    let low = text::lowered(name);
    let n = name.len();
    if n >= 5 {
        let tail = low.subrange(n - 5, n as int);
        assert(tail[0] == low[n - 5] && tail[1] == low[n - 4] && tail[2] == low[n - 3] && tail[3]
            == low[n - 2] && tail[4] == low[n - 1]);
        assert(":dark"@[0] == ':' && ":dark"@[1] == 'd' && ":dark"@[2] == 'a' && ":dark"@[3] == 'r'
            && ":dark"@[4] == 'k');
        assert("-dark"@[0] == '-' && "-dark"@[1] == 'd' && "-dark"@[2] == 'a' && "-dark"@[3] == 'r'
            && "-dark"@[4] == 'k');
        text::letters_have_two_cases(name[n - 5]);
        text::letters_have_two_cases(name[n - 4]);
        text::letters_have_two_cases(name[n - 3]);
        text::letters_have_two_cases(name[n - 2]);
        text::letters_have_two_cases(name[n - 1]);
        if tail[0] == ':' && tail[1] == 'd' && tail[2] == 'a' && tail[3] == 'r' && tail[4] == 'k' {
            assert(tail =~= ":dark"@);
        }
        if tail[0] == '-' && tail[1] == 'd' && tail[2] == 'a' && tail[3] == 'r' && tail[4] == 'k' {
            assert(tail =~= "-dark"@);
        }
    }
}

/// A line that names the density resource adds its value, without the space around it; a line
/// that names another, or none, adds nothing.
pub proof fn density_lines_are_read(
    lines: Seq<Seq<char>>,
    key: Seq<char>,
    value: Seq<char>,
    gap: Seq<char>,
)
    requires
        key.len() > 0,
        !key.contains(':'),
        !text::white_space(key[0]) && !text::white_space(key.last()),
        value.len() > 0 ==> !text::white_space(value[0]) && !text::white_space(value.last()),
        forall|i: int| 0 <= i < gap.len() ==> text::white_space(#[trigger] gap[i]),
    ensures
        ({
            let n = lines.len() as int;
            let before = density_values(lines, n);
            let line = gap + key + gap + seq![':'] + gap + value + gap;
            &&& density_values(lines.push(line), n + 1) == (if key == seq![
                'X',
                'f',
                't',
                '.',
                'd',
                'p',
                'i',
            ] {
                before.push(value)
            } else {
                before
            })
            &&& density_values(lines.push(key), n + 1) == before
        }),
{
    reveal_strlit("Xft.dpi");
    assert("Xft.dpi"@ =~= seq!['X', 'f', 't', '.', 'd', 'p', 'i']);
    let n = lines.len() as int;
    let line = gap + key + gap + seq![':'] + gap + value + gap;
    let colon = (gap.len() + key.len() + gap.len()) as int;
    assert forall|i: int| 0 <= i < colon implies line[i] != ':' by {
        if i < gap.len() {
            assert(line[i] == gap[i]);
        } else if i < gap.len() + key.len() {
            assert(line[i] == key[i - gap.len()]);
            assert(key.contains(key[i - gap.len()]));
        } else {
            assert(line[i] == gap[i - gap.len() - key.len()]);
        }
    }
    assert(line[colon] == ':');
    text::the_first_is_found(line, ':', 0, colon);
    assert(line.take(colon) =~= gap + key + gap);
    assert(line.skip(colon + 1) =~= gap + value + gap);
    text::trimming_takes_the_space_around(gap, key, gap);
    text::trimming_takes_the_space_around(gap, value, gap);
    density_is_of_the_lines_before(lines, line, n);
    density_is_of_the_lines_before(lines, key, n);
    assert(lines.push(line)[n] == line);
    assert(lines.push(key)[n] == key);
    assert forall|i: int| 0 <= i < key.len() implies key[i] != ':' by {
        assert(key.contains(key[i]));
    }
    text::the_first_is_found(key, ':', 0, key.len() as int);
}

proof fn density_is_of_the_lines_before(lines: Seq<Seq<char>>, line: Seq<char>, n: int)
    requires
        0 <= n <= lines.len(),
    ensures
        density_values(lines.push(line), n) == density_values(lines, n),
    decreases n,
{
    if n > 0 {
        density_is_of_the_lines_before(lines, line, n - 1);
        assert(lines.push(line)[n - 1] == lines[n - 1]);
    }
}

/// A name that begins with its encoding or its modifier names no language, and neither does one of
/// nothing but space before them.
pub proof fn names_need_a_language(gap: Seq<char>, rest: Seq<char>)
    requires
        forall|i: int| 0 <= i < gap.len() ==> text::white_space(#[trigger] gap[i]),
        rest.len() > 0 ==> rest[0] == '.' || rest[0] == '@',
    ensures
        tag_of(gap + rest) is None,
{
    let s = gap + rest;
    let n = gap.len() as int;
    assert forall|i: int| 0 <= i < n implies s[i] != '.' && s[i] != '@' by {
        assert(s[i] == gap[i]);
    }
    dots_and_signs(s, '.', n);
    dots_and_signs(s, '@', n);
    if rest.len() > 0 {
        assert(s[n] == rest[0]);
        if rest[0] == '.' {
            text::the_first_is_found(s, '.', 0, n);
        } else {
            text::the_first_is_found(s, '@', 0, n);
        }
    }
    assert(s.take(n) =~= gap);
    let e = Seq::<char>::empty();
    text::trimming_takes_the_space_around(gap, e, e);
    assert(gap + e + e =~= gap);
}

} // verus!
