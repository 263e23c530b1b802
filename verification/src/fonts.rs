//! The fonts the launcher embeds, and the list handed to the renderer.

use vstd::prelude::*;

verus! {

pub const DEFAULT_FONT: &'static str = "Inter";

pub const ARABIC_FONT: &'static str = "Cairo";

pub const PIXEL_FONT: &'static str = "Press Start 2P";

pub const MONO_FONT: &'static str = "JetBrains Mono";

/// The embedded fonts, in loading order: family and asset path.
pub open spec fn font_table_spec() -> Seq<(Seq<char>, Seq<char>)> {
    seq![
        ("Inter"@, "fonts/Inter/Inter-Regular.ttf"@),
        ("Inter"@, "fonts/Inter/Inter-Bold.ttf"@),
        ("Cairo"@, "fonts/Cairo/Cairo-Regular.ttf"@),
        ("Cairo"@, "fonts/Cairo/Cairo-Black.ttf"@),
        ("Press Start 2P"@, "fonts/Pixel/PressStart2P.ttf"@),
        ("JetBrains Mono"@, "fonts/JetBrainsMono/JetBrainsMonoVariable.ttf"@),
    ]
}

/// The view of a table entry.
pub open spec fn entry_view(e: (&'static str, &'static str)) -> (Seq<char>, Seq<char>) {
    (e.0@, e.1@)
}

/// The embedded fonts: family and asset path.
pub fn font_table() -> (t: Vec<(&'static str, &'static str)>)
    ensures
        t@.map_values(|e: (&'static str, &'static str)| entry_view(e)) == font_table_spec(),
{
    let t = vec![
        (DEFAULT_FONT, "fonts/Inter/Inter-Regular.ttf"),
        (DEFAULT_FONT, "fonts/Inter/Inter-Bold.ttf"),
        (ARABIC_FONT, "fonts/Cairo/Cairo-Regular.ttf"),
        (ARABIC_FONT, "fonts/Cairo/Cairo-Black.ttf"),
        (PIXEL_FONT, "fonts/Pixel/PressStart2P.ttf"),
        (MONO_FONT, "fonts/JetBrainsMono/JetBrainsMonoVariable.ttf"),
    ];
    assert(t@.map_values(|e: (&'static str, &'static str)| entry_view(e)) =~= font_table_spec());
    t
}

/// The fonts that loaded, with their families, in table order.
pub open spec fn loaded_spec<B>(families: Seq<&'static str>, found: Seq<Option<B>>) -> Seq<
    (&'static str, B),
>
    decreases found.len(),
{
    if found.len() == 0 {
        Seq::empty()
    } else {
        let rest = loaded_spec(families.drop_last(), found.drop_last());
        match found.last() {
            Some(b) => rest.push((families.last(), b)),
            None => rest,
        }
    }
}

/// Pairs each font of the table that loaded with its family, dropping those
/// whose asset could not be found. `found` holds what loading each entry of
/// the table gave, in table order.
pub fn collect_fonts<B>(table: &Vec<(&'static str, &'static str)>, found: Vec<Option<B>>) -> (fonts:
    Vec<(&'static str, B)>)
    requires
        found@.len() == table@.len(),
    ensures
        fonts@ == loaded_spec(table@.map_values(|e: (&'static str, &'static str)| e.0), found@),
{
    let ghost families = table@.map_values(|e: (&'static str, &'static str)| e.0);
    let ghost all = found@;
    let mut rest = found;
    let mut fonts: Vec<(&'static str, B)> = Vec::new();
    let mut i: usize = 0;
    let n = table.len();
    while i < n
        invariant
            n == table@.len(),
            all.len() == n,
            i <= n,
            families == table@.map_values(|e: (&'static str, &'static str)| e.0),
            rest@ == all.skip(i as int),
            fonts@ == loaded_spec(families.take(i as int), all.take(i as int)),
        decreases n - i,
    {
        let entry = rest.remove(0);
        assert(entry == all[i as int]);
        assert(families.take(i + 1).drop_last() =~= families.take(i as int));
        assert(all.take(i + 1).drop_last() =~= all.take(i as int));
        assert(rest@ =~= all.skip(i + 1));
        match entry {
            Some(b) => {
                fonts.push((table[i].0, b));
            },
            None => {},
        }
        i = i + 1;
    }
    assert(families.take(n as int) =~= families);
    assert(all.take(n as int) =~= all);
    fonts
}

} // verus!
