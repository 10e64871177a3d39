//! Names the editor makes up: asset ids from file names, ids that do not
//! clash with the ones taken, and decimal numbers in labels.

use crate::text::{chars_of, string_from_chars};
use crate::timecode::digits_value;
use vstd::prelude::*;
use vstd::relations::injective_on;
use vstd::set_lib::{lemma_int_range, lemma_len_subset, lemma_map_size, set_int_range};

verus! {

/// The ASCII digit for `d < 10`.
pub open spec fn digit_char(d: nat) -> char {
    (d + 48) as char
}

/// The decimal digits of `n`, most significant first, without leading
/// zeros (`"0"` for zero).
pub open spec fn decimal(n: nat) -> Seq<char>
    decreases n,
{
    if n < 10 {
        seq![digit_char(n)]
    } else {
        decimal(n / 10).push(digit_char(n % 10))
    }
}

/// The decimal digits of `n` spell `n`.
pub proof fn lemma_decimal_value(n: nat)
    ensures
        digits_value(decimal(n)) == n,
        decimal(n).len() > 0,
    decreases n,
{
    if n < 10 {
        assert(decimal(n).drop_last() == Seq::<char>::empty());
        assert((digit_char(n) as int) == n + 48);
        assert(('0' as int) == 48);
        assert(decimal(n).last() == digit_char(n));
        assert(digits_value(decimal(n)) == digits_value(decimal(n).drop_last()) * 10 + ((
        decimal(n).last() as int) - ('0' as int)) as nat);
    } else {
        lemma_decimal_value(n / 10);
        assert(decimal(n).drop_last() == decimal(n / 10));
        assert((digit_char(n % 10) as int) == n % 10 + 48);
        assert(n == (n / 10) * 10 + n % 10);
        assert(('0' as int) == 48);
        assert(decimal(n).last() == digit_char(n % 10));
        assert(digits_value(decimal(n)) == digits_value(decimal(n).drop_last()) * 10 + ((
        decimal(n).last() as int) - ('0' as int)) as nat);
    }
}

/// Distinct numbers have distinct decimal forms.
pub proof fn lemma_decimal_injective(m: nat, n: nat)
    requires
        decimal(m) == decimal(n),
    ensures
        m == n,
{
    lemma_decimal_value(m);
    lemma_decimal_value(n);
}

fn digit(d: u64) -> (c: char)
    requires
        d < 10,
    ensures
        c == digit_char(d as nat),
{
    let b: u8 = d as u8 + 48;
    b as char
}

/// The decimal digits of `n`.
pub fn decimal_chars(n: u64) -> (v: Vec<char>)
    ensures
        v@ == decimal(n as nat),
    decreases n,
{
    if n < 10 {
        let mut v: Vec<char> = Vec::new();
        v.push(digit(n));
        assert(v@ == seq![digit_char(n as nat)]);
        v
    } else {
        let mut v = decimal_chars(n / 10);
        v.push(digit(n % 10));
        v
    }
}

/// `0-9`, `a-z` and `A-Z`.
pub open spec fn is_ascii_alphanumeric(c: char) -> bool {
    ('0' <= c && c <= '9') || ('a' <= c && c <= 'z') || ('A' <= c && c <= 'Z')
}

/// `c` with `A-Z` mapped to `a-z`.
pub open spec fn ascii_lower(c: char) -> char {
    if 'A' <= c && c <= 'Z' {
        (c as int + 32) as char
    } else {
        c
    }
}

fn is_alphanumeric_char(c: char) -> (b: bool)
    ensures
        b == is_ascii_alphanumeric(c),
{
    ('0' <= c && c <= '9') || ('a' <= c && c <= 'z') || ('A' <= c && c <= 'Z')
}

pub(crate) fn lower_char(c: char) -> (r: char)
    ensures
        r == ascii_lower(c),
{
    if 'A' <= c && c <= 'Z' {
        let b: u8 = c as u8 + 32;
        b as char
    } else {
        c
    }
}

/// Scans `s` into `out`: each run of ASCII letters and digits is appended
/// in lower case, and runs are joined by one `-` where anything else stood
/// between them (`pending` says something else was just seen).
pub open spec fn slug_scan(s: Seq<char>, out: Seq<char>, pending: bool) -> Seq<char>
    decreases s.len(),
{
    if s.len() == 0 {
        out
    } else if is_ascii_alphanumeric(s[0]) {
        let joined = if pending && out.len() > 0 {
            out.push('-')
        } else {
            out
        };
        slug_scan(s.drop_first(), joined.push(ascii_lower(s[0])), false)
    } else {
        slug_scan(s.drop_first(), out, true)
    }
}

/// The slug of a name: its ASCII letters and digits in lower case, each run
/// separated by one `-`; `"asset"` when there are none.
pub open spec fn spec_slugify(input: Seq<char>) -> Seq<char> {
    let out = slug_scan(input, Seq::empty(), false);
    if out.len() == 0 {
        "asset"@
    } else {
        out
    }
}

/// An id-friendly slug of `input` (see [`spec_slugify`]).
pub fn slugify(input: &str) -> (r: String)
    ensures
        r@ == spec_slugify(input@),
{
    let chars = chars_of(input);
    let mut output: Vec<char> = Vec::new();
    let mut separator = false;
    let mut i: usize = 0;
    assert(chars@.skip(0) == chars@);
    while i < chars.len()
        invariant
            i <= chars.len(),
            slug_scan(chars@.skip(i as int), output@, separator) == slug_scan(
                chars@,
                Seq::empty(),
                false,
            ),
        decreases chars.len() - i,
    {
        let c = chars[i];
        assert(chars@.skip(i as int)[0] == c);
        assert(chars@.skip(i as int).drop_first() == chars@.skip(i + 1));
        if is_alphanumeric_char(c) {
            if separator && output.len() > 0 {
                output.push('-');
            }
            output.push(lower_char(c));
            separator = false;
        } else {
            separator = true;
        }
        i = i + 1;
    }
    assert(chars@.skip(i as int).len() == 0);
    if output.len() == 0 {
        "asset".to_owned()
    } else {
        string_from_chars(output.as_slice())
    }
}

/// `base-k`.
pub open spec fn suffixed(base: Seq<char>, k: nat) -> Seq<char> {
    base + seq!['-'] + decimal(k)
}

/// The characters of each name.
pub open spec fn names_of(existing: Seq<&str>) -> Seq<Seq<char>> {
    existing.map_values(|name: &str| name@)
}

/// `id` is `base` when that is free; otherwise it is `base-k` for the
/// least `k >= 2` whose name is free.
pub open spec fn is_unique_id(base: Seq<char>, names: Seq<Seq<char>>, id: Seq<char>) -> bool {
    if !names.contains(base) {
        id == base
    } else {
        exists|k: nat|
            #![trigger suffixed(base, k)]
            k >= 2 && id == suffixed(base, k) && !names.contains(suffixed(base, k)) && forall|j: nat|
                2 <= j < k ==> names.contains(#[trigger] suffixed(base, j))
    }
}

/// Different suffixes give different names.
proof fn lemma_suffixed_injective(base: Seq<char>, a: nat, b: nat)
    requires
        suffixed(base, a) == suffixed(base, b),
    ensures
        a == b,
{
    let start = base.len() + 1int;
    assert(suffixed(base, a).subrange(start, suffixed(base, a).len() as int) == decimal(a));
    assert(suffixed(base, b).subrange(start, suffixed(base, b).len() as int) == decimal(b));
    lemma_decimal_injective(a, b);
}

/// When `base-2` to `base-k` are all taken, there are at least `k - 1`
/// names.
proof fn lemma_taken_suffixes_bound(base: Seq<char>, names: Seq<Seq<char>>, k: nat)
    requires
        k >= 2,
        forall|j: nat| 2 <= j <= k ==> names.contains(#[trigger] suffixed(base, j)),
    ensures
        k - 1 <= names.len(),
{
    let f = |j: int| suffixed(base, j as nat);
    let range = set_int_range(2, k + 1int);
    lemma_int_range(2, k + 1int);
    assert(injective_on(f, range)) by {
        assert forall|x: int, y: int|
            range.contains(x) && range.contains(y) && #[trigger] f(x) == #[trigger] f(y) implies x
            == y by {
            lemma_suffixed_injective(base, x as nat, y as nat);
        }
    }
    let taken = range.map(f);
    lemma_map_size(range, taken, f);
    assert(taken.subset_of(names.to_set())) by {
        assert forall|name: Seq<char>| taken.contains(name) implies names.to_set().contains(name) by {
            let j = choose|j: int| range.contains(j) && f(j) == name;
            assert(names.contains(suffixed(base, j as nat)));
        }
    }
    vstd::seq_lib::seq_to_set_is_finite(names);
    lemma_len_subset(taken, names.to_set());
    names.lemma_cardinality_of_set();
}

/// Whether the characters of `v` are those of `s`.
pub(crate) fn chars_match(v: &Vec<char>, s: &str) -> (b: bool)
    ensures
        b == (v@ == s@),
{
    let n = s.unicode_len();
    if v.len() != n {
        return false;
    }
    let mut i: usize = 0;
    while i < n
        invariant
            n == s@.len(),
            n == v@.len(),
            i <= n,
            v@.subrange(0, i as int) == s@.subrange(0, i as int),
        decreases n - i,
    {
        if v[i] != s.get_char(i) {
            assert(v@[i as int] != s@[i as int]);
            return false;
        }
        assert(v@.subrange(0, i + 1) == v@.subrange(0, i as int).push(v@[i as int]));
        assert(s@.subrange(0, i + 1) == s@.subrange(0, i as int).push(s@[i as int]));
        i = i + 1;
    }
    assert(v@ == v@.subrange(0, n as int));
    assert(s@ == s@.subrange(0, n as int));
    true
}

/// Whether one of `existing` is spelled `name`.
fn is_taken(existing: &[&str], name: &Vec<char>) -> (b: bool)
    ensures
        b == names_of(existing@).contains(name@),
{
    let mut i: usize = 0;
    while i < existing.len()
        invariant
            i <= existing.len(),
            forall|j: int| 0 <= j < i ==> existing@[j]@ != name@,
        decreases existing.len() - i,
    {
        if chars_match(name, existing[i]) {
            assert(names_of(existing@)[i as int] == name@);
            return true;
        }
        i = i + 1;
    }
    assert forall|j: int| 0 <= j < names_of(existing@).len() implies names_of(existing@)[j]
        != name@ by {
        assert(names_of(existing@)[j] == existing@[j]@);
    }
    false
}

/// `base-k`, spelled out.
fn suffixed_chars(base: &str, k: u64) -> (v: Vec<char>)
    ensures
        v@ == suffixed(base@, k as nat),
{
    let mut v = chars_of(base);
    v.push('-');
    let mut digits = decimal_chars(k);
    v.append(&mut digits);
    v
}

/// `base` if no existing id is spelled so, else `base-2`, `base-3`, ...:
/// the first that is free (see [`is_unique_id`]). There are fewer existing
/// ids than suffixes to try.
pub fn unique_id(base: &str, existing: &[&str]) -> (r: String)
    requires
        existing.len() < u64::MAX - 2,
    ensures
        is_unique_id(base@, names_of(existing@), r@),
{
    let ghost names = names_of(existing@);
    let whole = chars_of(base);
    if !is_taken(existing, &whole) {
        return base.to_owned();
    }
    let mut suffix: u64 = 2;
    loop
        invariant
            2 <= suffix <= existing.len() + 2,
            existing.len() < u64::MAX - 2,
            names == names_of(existing@),
            names.len() == existing@.len(),
            names.contains(base@),
            forall|j: nat| 2 <= j < suffix ==> names.contains(#[trigger] suffixed(base@, j)),
        decreases existing.len() + 2 - suffix,
    {
        let candidate = suffixed_chars(base, suffix);
        if !is_taken(existing, &candidate) {
            let r = string_from_chars(candidate.as_slice());
            assert(suffixed(base@, suffix as nat) == r@);
            return r;
        }
        proof {
            lemma_taken_suffixes_bound(base@, names, suffix as nat);
        }
        suffix = suffix + 1;
    }
}

/// Whether `s` ends with `suffix`.
pub open spec fn ends_with(s: Seq<char>, suffix: Seq<char>) -> bool {
    suffix.len() <= s.len() && s.subrange(s.len() - suffix.len(), s.len() as int) == suffix
}

/// `s` without `suffix`, which it must end with.
pub open spec fn without_suffix(s: Seq<char>, suffix: Seq<char>) -> Seq<char> {
    s.subrange(0, s.len() - suffix.len())
}

/// Whether `v` ends with the characters of `suffix`.
fn chars_end_with(v: &Vec<char>, suffix: &str) -> (b: bool)
    ensures
        b == ends_with(v@, suffix@),
{
    let n = suffix.unicode_len();
    if n > v.len() {
        return false;
    }
    let offset = v.len() - n;
    let mut i: usize = 0;
    while i < n
        invariant
            n == suffix@.len(),
            n <= v@.len(),
            offset == v@.len() - n,
            offset + n <= usize::MAX,
            i <= n,
            forall|j: int| 0 <= j < i ==> v@[offset + j] == suffix@[j],
        decreases n - i,
    {
        if v[offset + i] != suffix.get_char(i) {
            assert(v@.subrange(offset as int, v@.len() as int)[i as int] != suffix@[i as int]);
            return false;
        }
        i = i + 1;
    }
    assert(v@.subrange(offset as int, v@.len() as int) == suffix@);
    true
}

/// The first `len` characters of `v`.
fn prefix_chars(v: &Vec<char>, len: usize) -> (r: Vec<char>)
    requires
        len <= v@.len(),
    ensures
        r@ == v@.subrange(0, len as int),
{
    let mut r: Vec<char> = Vec::new();
    let mut i: usize = 0;
    while i < len
        invariant
            len <= v@.len(),
            i <= len,
            r@ == v@.subrange(0, i as int),
        decreases len - i,
    {
        r.push(v[i]);
        i = i + 1;
    }
    r
}

/// The suggested output name for exporting a project: the project file's
/// name (or the project's name when it has no file) with `.celesta.json`,
/// or else `.json`, replaced by `.mp4`.
pub open spec fn spec_export_suggested_name(file_name: Option<Seq<char>>, project_name: Seq<char>) -> Seq<
    char,
> {
    let name = match file_name {
        Some(name) => name,
        None => project_name,
    };
    let stem = if ends_with(name, ".celesta.json"@) {
        without_suffix(name, ".celesta.json"@)
    } else if ends_with(name, ".json"@) {
        without_suffix(name, ".json"@)
    } else {
        name
    };
    stem + ".mp4"@
}

/// The suggested export file name (see [`spec_export_suggested_name`]);
/// `file_name` is the name of the project file, if it has one.
pub fn export_suggested_name(file_name: Option<&str>, project_name: &str) -> (r: String)
    ensures
        r@ == spec_export_suggested_name(
            match file_name {
                Some(name) => Some(name@),
                None => None,
            },
            project_name@,
        ),
{
    let name = match file_name {
        Some(name) => chars_of(name),
        None => chars_of(project_name),
    };
    let long = ".celesta.json";
    let short = ".json";
    let mut stem = if chars_end_with(&name, long) {
        prefix_chars(&name, name.len() - long.unicode_len())
    } else if chars_end_with(&name, short) {
        prefix_chars(&name, name.len() - short.unicode_len())
    } else {
        name
    };
    let mut extension = chars_of(".mp4");
    stem.append(&mut extension);
    string_from_chars(stem.as_slice())
}

/// The extensions of React entry modules.
pub open spec fn is_script_extension(extension: Seq<char>) -> bool {
    ||| extension == "tsx"@
    ||| extension == "ts"@
    ||| extension == "jsx"@
    ||| extension == "js"@
    ||| extension == "mjs"@
    ||| extension == "cjs"@
}

/// Whether a file is a React entry: a script (by its extension) that is not
/// a `.celesta.json` project. `file_name` and `extension` are the file's
/// name and extension, where it has them.
pub fn is_react_entry(file_name: Option<&str>, extension: Option<&str>) -> (b: bool)
    ensures
        b == (!(match file_name {
            Some(name) => ends_with(name@, ".celesta.json"@),
            None => false,
        }) && match extension {
            Some(extension) => is_script_extension(extension@),
            None => false,
        }),
{
    match file_name {
        Some(name) => {
            let chars = chars_of(name);
            if chars_end_with(&chars, ".celesta.json") {
                return false;
            }
        },
        None => {},
    }
    match extension {
        None => false,
        Some(extension) => {
            let chars = chars_of(extension);
            chars_match(&chars, "tsx") || chars_match(&chars, "ts") || chars_match(&chars, "jsx")
                || chars_match(&chars, "js") || chars_match(&chars, "mjs") || chars_match(
                &chars,
                "cjs",
            )
        },
    }
}

/// A lower-case ASCII letter or digit.
pub open spec fn is_slug_char(c: char) -> bool {
    ('0' <= c && c <= '9') || ('a' <= c && c <= 'z')
}

/// Lower-case ASCII letters and digits in runs joined by single dashes,
/// with no dash at either end.
pub open spec fn is_id_friendly(s: Seq<char>) -> bool {
    &&& forall|i: int| 0 <= i < s.len() ==> is_slug_char(#[trigger] s[i]) || s[i] == '-'
    &&& s.len() > 0 ==> s[0] != '-' && s.last() != '-'
    &&& forall|i: int| 0 <= i < s.len() - 1 ==> !(#[trigger] s[i] == '-' && s[i + 1] == '-')
}

proof fn lemma_slug_scan_friendly(s: Seq<char>, out: Seq<char>, pending: bool)
    requires
        is_id_friendly(out),
    ensures
        is_id_friendly(slug_scan(s, out, pending)),
    decreases s.len(),
{
    if s.len() > 0 {
        if is_ascii_alphanumeric(s[0]) {
            let joined = if pending && out.len() > 0 {
                out.push('-')
            } else {
                out
            };
            let next = joined.push(ascii_lower(s[0]));
            assert(is_slug_char(ascii_lower(s[0])));
            assert forall|i: int| 0 <= i < next.len() - 1 implies !(#[trigger] next[i] == '-'
                && next[i + 1] == '-') by {
                if i < out.len() - 1 {
                    assert(next[i] == out[i] && next[i + 1] == out[i + 1]);
                }
            }
            lemma_slug_scan_friendly(s.drop_first(), next, false);
        } else {
            lemma_slug_scan_friendly(s.drop_first(), out, true);
        }
    }
}

/// A slug is never empty and is id-friendly: lower-case ASCII letters and
/// digits, in runs joined by single dashes, with no dash at either end.
pub proof fn law_slug_is_id_friendly(input: Seq<char>)
    ensures
        spec_slugify(input).len() > 0,
        is_id_friendly(spec_slugify(input)),
{
    lemma_slug_scan_friendly(input, Seq::empty(), false);
    reveal_strlit("asset");
}

/// The ASCII letters and digits of `s`, in order, in lower case.
pub open spec fn kept_lower(s: Seq<char>) -> Seq<char>
    decreases s.len(),
{
    if s.len() == 0 {
        Seq::empty()
    } else if is_ascii_alphanumeric(s[0]) {
        seq![ascii_lower(s[0])] + kept_lower(s.drop_first())
    } else {
        kept_lower(s.drop_first())
    }
}

/// `s` without its dashes.
pub open spec fn without_dashes(s: Seq<char>) -> Seq<char>
    decreases s.len(),
{
    if s.len() == 0 {
        Seq::empty()
    } else if s.last() == '-' {
        without_dashes(s.drop_last())
    } else {
        without_dashes(s.drop_last()).push(s.last())
    }
}

proof fn lemma_scan_keeps_letters(s: Seq<char>, out: Seq<char>, pending: bool)
    ensures
        without_dashes(slug_scan(s, out, pending)) == without_dashes(out) + kept_lower(s),
        kept_lower(s).len() == 0 ==> slug_scan(s, out, pending) == out,
    decreases s.len(),
{
    if s.len() > 0 {
        let rest = s.drop_first();
        if is_ascii_alphanumeric(s[0]) {
            let joined = if pending && out.len() > 0 {
                out.push('-')
            } else {
                out
            };
            assert(joined.push('-').drop_last() =~= joined);
            assert(without_dashes(joined) == without_dashes(out)) by {
                if pending && out.len() > 0 {
                    assert(out.push('-').drop_last() =~= out);
                }
            }
            let next = joined.push(ascii_lower(s[0]));
            assert(next.drop_last() =~= joined);
            assert(ascii_lower(s[0]) != '-');
            lemma_scan_keeps_letters(rest, next, false);
            assert(without_dashes(next) == without_dashes(out).push(ascii_lower(s[0])));
            assert(without_dashes(out).push(ascii_lower(s[0])) + kept_lower(rest) =~= without_dashes(
                out,
            ) + (seq![ascii_lower(s[0])] + kept_lower(rest)));
        } else {
            lemma_scan_keeps_letters(rest, out, true);
        }
    } else {
        assert(without_dashes(out) + Seq::<char>::empty() =~= without_dashes(out));
    }
}

/// A slug keeps the name's ASCII letters and digits: without its dashes it
/// is exactly those characters, in order and in lower case; a name with
/// none gets `"asset"`.
pub proof fn law_slug_keeps_the_letters(input: Seq<char>)
    ensures
        kept_lower(input).len() > 0 ==> without_dashes(spec_slugify(input)) == kept_lower(input),
        kept_lower(input).len() == 0 ==> spec_slugify(input) == "asset"@,
{
    lemma_scan_keeps_letters(input, Seq::empty(), false);
    assert(without_dashes(Seq::<char>::empty()) =~= Seq::<char>::empty());
    assert(Seq::<char>::empty() + kept_lower(input) =~= kept_lower(input));
    let scanned = slug_scan(input, Seq::empty(), false);
    if kept_lower(input).len() > 0 && scanned.len() == 0 {
        assert(scanned =~= Seq::<char>::empty());
    }
}

/// A unique id is free: no existing name is spelled like it.
pub proof fn law_unique_id_is_free(base: Seq<char>, names: Seq<Seq<char>>, id: Seq<char>)
    requires
        is_unique_id(base, names, id),
    ensures
        !names.contains(id),
{
}

/// Directories a React project's sources are not looked for in.
pub open spec fn is_ignored_dir_name(name: Seq<char>) -> bool {
    ||| name == "node_modules"@
    ||| name == "dist"@
    ||| name == ".tmp"@
    ||| name == ".git"@
}

/// Whether a directory of this name is skipped when watching a React
/// project's sources.
pub fn is_ignored_source_dir(name: Option<&str>) -> (b: bool)
    ensures
        b == (name matches Some(n) && is_ignored_dir_name(n@)),
{
    match name {
        None => false,
        Some(name) => {
            let chars = chars_of(name);
            chars_match(&chars, "node_modules") || chars_match(&chars, "dist") || chars_match(
                &chars,
                ".tmp",
            ) || chars_match(&chars, ".git")
        },
    }
}

/// Whether a file with this extension is a watched React project source:
/// a script, JSON or CSS.
pub fn is_watched_source(extension: Option<&str>) -> (b: bool)
    ensures
        b == (extension matches Some(e) && (is_script_extension(e@) || e@ == "json"@ || e@
            == "css"@)),
{
    match extension {
        None => false,
        Some(extension) => {
            let chars = chars_of(extension);
            chars_match(&chars, "tsx") || chars_match(&chars, "ts") || chars_match(&chars, "jsx")
                || chars_match(&chars, "js") || chars_match(&chars, "mjs") || chars_match(
                &chars,
                "cjs",
            ) || chars_match(&chars, "json") || chars_match(&chars, "css")
        },
    }
}

/// Ids for imported assets, one per file stem in order: each is the slug of
/// its stem made unique among the existing ids and the ids given before it.
pub fn import_ids(stems: &[&str], existing: &[&str]) -> (r: Vec<String>)
    requires
        existing@.len() + stems@.len() < u64::MAX - 2,
    ensures
        r@.len() == stems@.len(),
        forall|i: int|
            0 <= i < stems@.len() ==> is_unique_id(
                spec_slugify(stems@[i]@),
                names_of(existing@) + r@.take(i).map_values(|id: String| id@),
                #[trigger] r@[i]@,
            ),
{
    let mut ids: Vec<String> = Vec::new();
    let mut i: usize = 0;
    while i < stems.len()
        invariant
            i <= stems@.len(),
            existing@.len() + stems@.len() < u64::MAX - 2,
            ids@.len() == i,
            forall|j: int|
                0 <= j < i ==> is_unique_id(
                    spec_slugify(stems@[j]@),
                    names_of(existing@) + ids@.take(j).map_values(|id: String| id@),
                    #[trigger] ids@[j]@,
                ),
        decreases stems.len() - i,
    {
        let reserved = reserved_names(existing, &ids);
        let base = slugify(stems[i]);
        let id = unique_id(base.as_str(), reserved.as_slice());
        let ghost before = ids@;
        assert(before.take(i as int) =~= before);
        ids.push(id);
        proof {
            assert forall|j: int| 0 <= j < i + 1 implies is_unique_id(
                spec_slugify(stems@[j]@),
                names_of(existing@) + ids@.take(j).map_values(|id: String| id@),
                #[trigger] ids@[j]@,
            ) by {
                assert(ids@.take(j) =~= before.take(j));
                if j < i {
                    assert(ids@[j] == before[j]);
                }
            }
        }
        i = i + 1;
    }
    ids
}

/// The existing ids followed by the ids given so far.
fn reserved_names<'a>(existing: &[&'a str], ids: &'a Vec<String>) -> (r: Vec<&'a str>)
    requires
        existing@.len() + ids@.len() < u64::MAX,
    ensures
        r@.len() == existing@.len() + ids@.len(),
        names_of(r@) == names_of(existing@) + ids@.map_values(|id: String| id@),
{
    let mut r: Vec<&str> = Vec::new();
    let mut k: usize = 0;
    while k < existing.len()
        invariant
            k <= existing@.len(),
            r@.len() == k,
            names_of(r@) == names_of(existing@.take(k as int)),
        decreases existing.len() - k,
    {
        let ghost prev = r@;
        r.push(existing[k]);
        assert(existing@.take(k + 1) =~= existing@.take(k as int).push(existing@[k as int]));
        assert(names_of(r@) =~= names_of(prev).push(existing@[k as int]@));
        assert(names_of(existing@.take(k + 1)) =~= names_of(existing@.take(k as int)).push(
            existing@[k as int]@,
        ));
        k = k + 1;
    }
    assert(existing@.take(k as int) =~= existing@);
    let mut j: usize = 0;
    while j < ids.len()
        invariant
            j <= ids@.len(),
            r@.len() == existing@.len() + j,
            names_of(r@) == names_of(existing@) + ids@.take(j as int).map_values(|id: String| id@),
        decreases ids.len() - j,
    {
        let ghost prev = r@;
        let name = ids[j].as_str();
        r.push(name);
        assert(names_of(r@) =~= names_of(prev).push(name@));
        assert(ids@.take(j + 1).map_values(|id: String| id@) =~= ids@.take(j as int).map_values(
            |id: String| id@,
        ).push(ids@[j as int]@));
        assert(names_of(r@) =~= names_of(existing@) + ids@.take(j + 1).map_values(
            |id: String| id@,
        ));
        j = j + 1;
    }
    assert(ids@.take(j as int) =~= ids@);
    r
}

} // verus!
