//! Resolved assets and styling shared by evaluated compositions.

use crate::text::{chars_of, string_from_chars};
use vstd::prelude::*;

verus! {

/// An asset after project resolution: its id and where its bytes live.
#[derive(Clone, Debug, PartialEq, Eq)]
pub struct ResolvedAsset {
    pub id: String,
    pub location: AssetLocation,
}

#[derive(Clone, Debug, PartialEq, Eq)]
pub enum AssetLocation {
    File { path: String },
    Url { url: String },
}

#[derive(Clone, Debug, PartialEq, Eq)]
pub enum Paint {
    Solid { color: String },
}

#[derive(Clone, Copy, Debug, PartialEq, Eq, Structural)]
pub enum TextAlign {
    Left,
    Center,
    Right,
}

/// `parts` joined with `sep` between consecutive parts.
pub open spec fn joined(parts: Seq<Seq<char>>, sep: char) -> Seq<char>
    decreases parts.len(),
{
    if parts.len() == 0 {
        Seq::empty()
    } else if parts.len() == 1 {
        parts[0]
    } else {
        joined(parts.drop_last(), sep).push(sep) + parts.last()
    }
}

/// The character sequences of a list of strings.
pub open spec fn string_views(parts: Seq<String>) -> Seq<Seq<char>> {
    parts.map_values(|s: String| s@)
}

/// The texture cache key of a PSD layer selection:
/// `psd`, the asset id and the three layer lists, separated by NUL, each list
/// joined by NUL.
pub open spec fn psd_key_chars(
    id: Seq<char>,
    visible: Seq<Seq<char>>,
    enabled: Seq<Seq<char>>,
    disabled: Seq<Seq<char>>,
) -> Seq<char> {
    seq!['p', 's', 'd', '\0'] + id + seq!['\0'] + joined(visible, '\0') + seq!['\0'] + joined(
        enabled,
        '\0',
    ) + seq!['\0'] + joined(disabled, '\0')
}

/// Appends `parts` joined by `sep` to `out`.
fn push_joined(out: &mut Vec<char>, parts: &[String], sep: char)
    ensures
        final(out)@ == old(out)@ + joined(string_views(parts@), sep),
{
    let ghost start = out@;
    let ghost views = string_views(parts@);
    let n = parts.len();
    let mut i: usize = 0;
    while i < n
        invariant
            n == parts@.len(),
            i <= n,
            views == string_views(parts@),
            out@ == start + joined(views.subrange(0, i as int), sep),
        decreases n - i,
    {
        let ghost before = out@;
        if i > 0 {
            out.push(sep);
        }
        let part = chars_of(parts[i].as_str());
        let mut j: usize = 0;
        while j < part.len()
            invariant
                j <= part@.len(),
                out@ == (if i > 0 {
                    before.push(sep)
                } else {
                    before
                }) + part@.subrange(0, j as int),
            decreases part@.len() - j,
        {
            out.push(part[j]);
            j = j + 1;
        }
        proof {
            let prefix = views.subrange(0, i + 1);
            assert(prefix.drop_last() == views.subrange(0, i as int));
            assert(prefix.last() == parts@[i as int]@);
            assert(part@.subrange(0, part@.len() as int) == part@);
            if i == 0 {
                assert(prefix.len() == 1);
                assert(joined(views.subrange(0, 0), sep) == Seq::<char>::empty());
            }
        }
        i = i + 1;
    }
    assert(views.subrange(0, n as int) == views);
}

/// Appends the characters of `s` to `out`.
fn push_str(out: &mut Vec<char>, s: &str)
    ensures
        final(out)@ == old(out)@ + s@,
{
    let chars = chars_of(s);
    let ghost start = out@;
    let mut j: usize = 0;
    while j < chars.len()
        invariant
            j <= chars@.len(),
            chars@ == s@,
            out@ == start + chars@.subrange(0, j as int),
        decreases chars@.len() - j,
    {
        out.push(chars[j]);
        j = j + 1;
    }
    assert(chars@.subrange(0, chars@.len() as int) == chars@);
}

/// The cache key of a PSD asset rendered with the given layer selection
/// (see [`psd_key_chars`]).
pub fn psd_key(
    asset: &ResolvedAsset,
    visible_layers: &[String],
    enabled_layers: &[String],
    disabled_layers: &[String],
) -> (key: String)
    ensures
        key@ == psd_key_chars(
            asset.id@,
            string_views(visible_layers@),
            string_views(enabled_layers@),
            string_views(disabled_layers@),
        ),
{
    let mut out: Vec<char> = Vec::new();
    out.push('p');
    out.push('s');
    out.push('d');
    out.push('\0');
    push_str(&mut out, asset.id.as_str());
    out.push('\0');
    push_joined(&mut out, visible_layers, '\0');
    out.push('\0');
    push_joined(&mut out, enabled_layers, '\0');
    out.push('\0');
    push_joined(&mut out, disabled_layers, '\0');
    string_from_chars(out.as_slice())
}

} // verus!
