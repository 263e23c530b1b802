//! The "Cosmetics & Skins" page: its catalogues of preset skins, community
//! skins and capes, the tab and selection state, which player the 3D preview
//! shows, and the links and notices it produces.

use vstd::prelude::*;
use crate::text::{
    eq_ignore_ascii_case, eq_ignore_ascii_case_spec, is_white_space_spec,
    lemma_trim_keeps_the_stretch_between_white_space, opt_view, trim, trim_spec,
};

verus! {

/// The tabs of the page.
#[derive(Clone, Copy, Debug, PartialEq, Eq, Structural)]
pub enum SkinTab {
    Skins,
    OnlineSkins,
    Capes,
    ModsGuide,
}

/// A built-in skin.
#[derive(Clone, Copy, Debug)]
pub struct PresetSkin {
    pub name: &'static str,
    pub desc: &'static str,
    pub tag: &'static str,
}

impl View for PresetSkin {
    type V = (Seq<char>, Seq<char>, Seq<char>);

    open spec fn view(&self) -> (Seq<char>, Seq<char>, Seq<char>) {
        (self.name@, self.desc@, self.tag@)
    }
}

/// A well-known player whose skin can be previewed.
#[derive(Clone, Copy, Debug)]
pub struct CommunitySkin {
    pub username: &'static str,
    pub title: &'static str,
    pub desc: &'static str,
    pub tag: &'static str,
}

impl View for CommunitySkin {
    type V = (Seq<char>, Seq<char>, Seq<char>, Seq<char>);

    open spec fn view(&self) -> (Seq<char>, Seq<char>, Seq<char>, Seq<char>) {
        (self.username@, self.title@, self.desc@, self.tag@)
    }
}

/// A colour by its red, green and blue channels.
#[derive(Clone, Copy, Debug, PartialEq, Eq, Structural)]
pub struct Rgb {
    pub r: u8,
    pub g: u8,
    pub b: u8,
}

/// A cape that can be equipped.
#[derive(Clone, Copy, Debug)]
pub struct PresetCape {
    pub name: &'static str,
    pub color_hint: Rgb,
    pub desc: &'static str,
}

impl View for PresetCape {
    type V = (Seq<char>, Rgb, Seq<char>);

    open spec fn view(&self) -> (Seq<char>, Rgb, Seq<char>) {
        (self.name@, self.color_hint, self.desc@)
    }
}

/// The built-in skins, in catalogue order: name, description, tag.
pub open spec fn preset_skins_spec() -> Seq<(Seq<char>, Seq<char>, Seq<char>)> {
    seq![
        ("Steve"@, "Classic Minecraft Male Model (4px arms)"@, "Default"@),
        ("Alex"@, "Classic Minecraft Slim Model (3px arms)"@, "Slim"@),
        ("Cyber Knight"@, "D3KN Dark Edition Armor & Visor"@, "Exclusive"@),
        ("Void Phantom"@, "Cosmic obsidian with glowing eyes"@, "Fantasy"@),
        ("Neon Shadow"@, "High-contrast stealth outfit"@, "Modern"@),
        ("Frost Warrior"@, "Glacial crystalline battle suit"@, "Polyfrost"@),
        ("Ender Champion"@, "Interdimensional royal mantle"@, "Mythic"@),
        ("Golden Sentinel"@, "Imperial gilded combat regalia"@, "Legendary"@),
    ]
}

/// The community skins, in catalogue order: username, title, description,
/// tag.
pub open spec fn community_skins_spec() -> Seq<(Seq<char>, Seq<char>, Seq<char>, Seq<char>)> {
    seq![
        ("Technoblade"@, "Technoblade"@, "The Blood God - Crown & Royal Pig Mantle"@, "Legendary"@),
        ("Dream"@, "Dream"@, "Iconic Neon Green & Mask Speedrunner"@, "Speedrun"@),
        ("DanTDM"@, "DanTDM"@, "Diamond Minecart Legend - Blue Hair & Goggles"@, "OG Classic"@),
        ("MumboJumbo"@, "Mumbo Jumbo"@, "Redstone Master - Formal Suit & Mustachio"@, "Redstone"@),
        ("Grian"@, "Grian"@, "Architect of Hermitcraft - Classic Red Sweater"@, "Builder"@),
        ("Skeppy"@, "Skeppy"@, "Diamond Block Skin - PvP & Trolling Legend"@, "PvP"@),
        ("d3kn"@, "D3KN"@, "D3KN Custom Gamer Edition"@, "Special"@),
        ("Notch"@, "Notch"@, "The Creator of Minecraft"@, "Creator"@),
        ("jeb_"@, "Jens Bergensten"@, "Lead Designer of Minecraft - Iconic Beard"@, "Mojang Dev"@),
        (
            "CaptainSparklez"@,
            "CaptainSparklez"@,
            "Fallen Kingdom Veteran - Creeper Hoodie"@,
            "Music & OG"@,
        ),
    ]
}

/// The capes, in catalogue order: name, colour hint, description.
pub open spec fn preset_capes_spec() -> Seq<(Seq<char>, Rgb, Seq<char>)> {
    seq![
        (
            "Polyfrost Founder"@,
            Rgb { r: 0, g: 180, b: 216 },
            "Official Polyfrost community founder insignia (Unlocked)"@,
        ),
        (
            "D3KN Legend Cape"@,
            Rgb { r: 255, g: 183, b: 3 },
            "Golden Dragon & Onyx sigil - PulseClient Custom Edition"@,
        ),
        (
            "15th Anniversary"@,
            Rgb { r: 190, g: 75, b: 40 },
            "Celebratory copper crest cape celebrating 15 years"@,
        ),
        (
            "Vanilla Migrator"@,
            Rgb { r: 180, g: 20, b: 50 },
            "Classic migration crimson cape with golden buckle"@,
        ),
        (
            "Sakura Blossom"@,
            Rgb { r: 255, g: 154, b: 162 },
            "Gentle cherry blossom petal gradient with soft glint"@,
        ),
        (
            "Cobalt Developer"@,
            Rgb { r: 30, g: 144, b: 255 },
            "Deep cobalt weave with cyan circuitry motifs"@,
        ),
        ("Void Nebula"@, Rgb { r: 138, g: 43, b: 226 }, "Cosmic ultraviolet starfield cape"@),
        (
            "Emerald Champion"@,
            Rgb { r: 46, g: 204, b: 113 },
            "Emerald luster cape commemorating high-tier survival"@,
        ),
    ]
}

/// Names of the preview backgrounds, in order.
pub open spec fn background_names_spec() -> Seq<Seq<char>> {
    seq![
        "CavesAndCliffs"@,
        "NetherUpdate"@,
        "TheWildUpdate"@,
        "TrailsAndTales"@,
        "TrickyTrials"@,
    ]
}

/// Names of the preview animations, in order.
pub open spec fn animation_names_spec() -> Seq<Seq<char>> {
    seq!["Idle"@, "Walking"@, "Running"@, "Crouch"@, "Flying"@]
}

/// The built-in skins.
pub fn preset_skins() -> (v: Vec<PresetSkin>)
    ensures
        v@.map_values(|s: PresetSkin| s@) == preset_skins_spec(),
{
    let v = vec![
        PresetSkin { name: "Steve", desc: "Classic Minecraft Male Model (4px arms)", tag: "Default" },
        PresetSkin { name: "Alex", desc: "Classic Minecraft Slim Model (3px arms)", tag: "Slim" },
        PresetSkin { name: "Cyber Knight", desc: "D3KN Dark Edition Armor & Visor", tag: "Exclusive" },
        PresetSkin { name: "Void Phantom", desc: "Cosmic obsidian with glowing eyes", tag: "Fantasy" },
        PresetSkin { name: "Neon Shadow", desc: "High-contrast stealth outfit", tag: "Modern" },
        PresetSkin { name: "Frost Warrior", desc: "Glacial crystalline battle suit", tag: "Polyfrost" },
        PresetSkin { name: "Ender Champion", desc: "Interdimensional royal mantle", tag: "Mythic" },
        PresetSkin { name: "Golden Sentinel", desc: "Imperial gilded combat regalia", tag: "Legendary" },
    ];
    assert(v@.map_values(|s: PresetSkin| s@) =~= preset_skins_spec());
    v
}

/// The community skins.
pub fn community_skins() -> (v: Vec<CommunitySkin>)
    ensures
        v@.map_values(|s: CommunitySkin| s@) == community_skins_spec(),
{
    let v = vec![
        CommunitySkin {
            username: "Technoblade",
            title: "Technoblade",
            desc: "The Blood God - Crown & Royal Pig Mantle",
            tag: "Legendary",
        },
        CommunitySkin {
            username: "Dream",
            title: "Dream",
            desc: "Iconic Neon Green & Mask Speedrunner",
            tag: "Speedrun",
        },
        CommunitySkin {
            username: "DanTDM",
            title: "DanTDM",
            desc: "Diamond Minecart Legend - Blue Hair & Goggles",
            tag: "OG Classic",
        },
        CommunitySkin {
            username: "MumboJumbo",
            title: "Mumbo Jumbo",
            desc: "Redstone Master - Formal Suit & Mustachio",
            tag: "Redstone",
        },
        CommunitySkin {
            username: "Grian",
            title: "Grian",
            desc: "Architect of Hermitcraft - Classic Red Sweater",
            tag: "Builder",
        },
        CommunitySkin {
            username: "Skeppy",
            title: "Skeppy",
            desc: "Diamond Block Skin - PvP & Trolling Legend",
            tag: "PvP",
        },
        CommunitySkin {
            username: "d3kn",
            title: "D3KN",
            desc: "D3KN Custom Gamer Edition",
            tag: "Special",
        },
        CommunitySkin {
            username: "Notch",
            title: "Notch",
            desc: "The Creator of Minecraft",
            tag: "Creator",
        },
        CommunitySkin {
            username: "jeb_",
            title: "Jens Bergensten",
            desc: "Lead Designer of Minecraft - Iconic Beard",
            tag: "Mojang Dev",
        },
        CommunitySkin {
            username: "CaptainSparklez",
            title: "CaptainSparklez",
            desc: "Fallen Kingdom Veteran - Creeper Hoodie",
            tag: "Music & OG",
        },
    ];
    assert(v@.map_values(|s: CommunitySkin| s@) =~= community_skins_spec());
    v
}

/// The capes.
pub fn preset_capes() -> (v: Vec<PresetCape>)
    ensures
        v@.map_values(|c: PresetCape| c@) == preset_capes_spec(),
{
    let v = vec![
        PresetCape {
            name: "Polyfrost Founder",
            color_hint: Rgb { r: 0, g: 180, b: 216 },
            desc: "Official Polyfrost community founder insignia (Unlocked)",
        },
        PresetCape {
            name: "D3KN Legend Cape",
            color_hint: Rgb { r: 255, g: 183, b: 3 },
            desc: "Golden Dragon & Onyx sigil - PulseClient Custom Edition",
        },
        PresetCape {
            name: "15th Anniversary",
            color_hint: Rgb { r: 190, g: 75, b: 40 },
            desc: "Celebratory copper crest cape celebrating 15 years",
        },
        PresetCape {
            name: "Vanilla Migrator",
            color_hint: Rgb { r: 180, g: 20, b: 50 },
            desc: "Classic migration crimson cape with golden buckle",
        },
        PresetCape {
            name: "Sakura Blossom",
            color_hint: Rgb { r: 255, g: 154, b: 162 },
            desc: "Gentle cherry blossom petal gradient with soft glint",
        },
        PresetCape {
            name: "Cobalt Developer",
            color_hint: Rgb { r: 30, g: 144, b: 255 },
            desc: "Deep cobalt weave with cyan circuitry motifs",
        },
        PresetCape {
            name: "Void Nebula",
            color_hint: Rgb { r: 138, g: 43, b: 226 },
            desc: "Cosmic ultraviolet starfield cape",
        },
        PresetCape {
            name: "Emerald Champion",
            color_hint: Rgb { r: 46, g: 204, b: 113 },
            desc: "Emerald luster cape commemorating high-tier survival",
        },
    ];
    assert(v@.map_values(|c: PresetCape| c@) =~= preset_capes_spec());
    v
}

/// Names of the preview backgrounds.
pub fn background_names() -> (v: Vec<&'static str>)
    ensures
        v@.map_values(|s: &'static str| s@) == background_names_spec(),
{
    let v = vec!["CavesAndCliffs", "NetherUpdate", "TheWildUpdate", "TrailsAndTales", "TrickyTrials"];
    assert(v@.map_values(|s: &'static str| s@) =~= background_names_spec());
    v
}

/// Names of the preview animations; the first one is the one playing.
pub fn animation_names() -> (v: Vec<&'static str>)
    ensures
        v@.map_values(|s: &'static str| s@) == animation_names_spec(),
{
    let v = vec!["Idle", "Walking", "Running", "Crouch", "Flying"];
    assert(v@.map_values(|s: &'static str| s@) =~= animation_names_spec());
    v
}

/// Name of the built-in skin at `idx`, or `fallback` past the catalogue.
pub fn preset_skin_name_or(idx: usize, fallback: &'static str) -> (name: &'static str)
    ensures
        name@ == if idx < preset_skins_spec().len() {
            preset_skins_spec()[idx as int].0
        } else {
            fallback@
        },
{
    let skins = preset_skins();
    proof {
        assert(skins@.len() == preset_skins_spec().len()) by {
            assert(skins@.map_values(|s: PresetSkin| s@).len() == skins@.len());
        }
    }
    if idx < skins.len() {
        assert(skins@.map_values(|s: PresetSkin| s@)[idx as int] == skins@[idx as int]@);
        skins[idx].name
    } else {
        fallback
    }
}

/// Name of the cape at `idx`, or `fallback` past the catalogue.
pub fn preset_cape_name_or(idx: usize, fallback: &'static str) -> (name: &'static str)
    ensures
        name@ == if idx < preset_capes_spec().len() {
            preset_capes_spec()[idx as int].0
        } else {
            fallback@
        },
{
    let capes = preset_capes();
    proof {
        assert(capes@.len() == preset_capes_spec().len()) by {
            assert(capes@.map_values(|c: PresetCape| c@).len() == capes@.len());
        }
    }
    if idx < capes.len() {
        assert(capes@.map_values(|c: PresetCape| c@)[idx as int] == capes@[idx as int]@);
        capes[idx].name
    } else {
        fallback
    }
}

/// Whether the community skin is the one being viewed: the usernames match
/// without regard to the case of ASCII letters.
pub fn is_viewing(online_user: &str, skin: &CommunitySkin) -> (r: bool)
    ensures
        r == eq_ignore_ascii_case_spec(online_user@, skin.username@),
{
    eq_ignore_ascii_case(online_user, skin.username)
}

/// The player a search asks to preview: the input without surrounding white
/// space, unless nothing is left of it.
pub open spec fn search_target_spec(input: Seq<char>) -> Option<Seq<char>> {
    if trim_spec(input).len() == 0 {
        None
    } else {
        Some(trim_spec(input))
    }
}

/// A search names a player whenever anything but white space was typed: it
/// is ignored exactly when the input is all white space; otherwise it names
/// the stretch of the input between the white space at its ends, which
/// neither begins nor ends with white space; so an input typed without
/// surrounding white space names exactly what was typed.
pub proof fn lemma_search_names_what_was_typed(input: Seq<char>)
    ensures
        (search_target_spec(input) is None) == (forall|i: int|
            0 <= i < input.len() ==> is_white_space_spec(#[trigger] input[i])),
        search_target_spec(input) matches Some(t) ==> {
            &&& t.len() > 0
            &&& !is_white_space_spec(t[0])
            &&& !is_white_space_spec(t.last())
            &&& exists|a: int, b: int|
                0 <= a <= b <= input.len() && t == input.subrange(a, b) && (forall|i: int|
                    0 <= i < a ==> is_white_space_spec(#[trigger] input[i])) && (forall|i: int|
                    b <= i < input.len() ==> is_white_space_spec(#[trigger] input[i]))
        },
        input.len() > 0 && !is_white_space_spec(input[0]) && !is_white_space_spec(input.last())
            ==> search_target_spec(input) == Some(input),
{
    lemma_trim_keeps_the_stretch_between_white_space(input);
}

/// The player a search for `input` asks to preview, if any.
pub fn search_target(input: &str) -> (r: Option<String>)
    ensures
        opt_view(r) == search_target_spec(input@),
{
    let t = trim(input);
    if t.is_empty() {
        None
    } else {
        Some(t.to_owned())
    }
}

/// `a` followed by `b`.
fn join2(a: &str, b: &str) -> (r: String)
    ensures
        r@ == a@ + b@,
{
    let mut r = String::from_str(a);
    r.append(b);
    r
}

/// `a`, `b` and `c` one after the other.
fn join3(a: &str, b: &str, c: &str) -> (r: String)
    ensures
        r@ == a@ + b@ + c@,
{
    let mut r = String::from_str(a);
    r.append(b);
    r.append(c);
    r
}

/// The player's profile page on NameMC.
pub fn namemc_profile_url(user: &str) -> (url: String)
    ensures
        url@ == "https://namemc.com/profile/"@ + user@,
{
    join2("https://namemc.com/profile/", user)
}

/// The player's full skin texture on Minotar.
pub fn minotar_skin_url(user: &str) -> (url: String)
    ensures
        url@ == "https://minotar.net/skin/"@ + user@,
{
    join2("https://minotar.net/skin/", user)
}

/// Notice body when a previewed player's skin is equipped.
pub fn online_skin_equipped_body(user: &str) -> (body: String)
    ensures
        body@ == user@ + "'s skin is now active on your character!"@,
{
    join2(user, "'s skin is now active on your character!")
}

/// Notice body when a skin is applied.
pub fn skin_applied_body(name: &str) -> (body: String)
    ensures
        body@ == "Applied "@ + name@ + " as your active skin"@,
{
    join3("Applied ", name, " as your active skin")
}

/// Notice body when a cape is equipped.
pub fn cape_equipped_body(name: &str) -> (body: String)
    ensures
        body@ == name@ + " is now active on your character!"@,
{
    join2(name, " is now active on your character!")
}

/// Notice body when a player's skin texture is opened.
pub fn texture_opened_body(user: &str) -> (body: String)
    ensures
        body@ == "Opened full skin texture for "@ + user@,
{
    join2("Opened full skin texture for ", user)
}

/// Notice body when a skin file is imported.
pub fn skin_imported_body(file_name: &str) -> (body: String)
    ensures
        body@ == "Loaded "@ + file_name@,
{
    join2("Loaded ", file_name)
}

/// Heading naming the player whose skin is previewed.
pub fn viewing_label(user: &str) -> (label: String)
    ensures
        label@ == "Viewing Skin: "@ + user@,
{
    join2("Viewing Skin: ", user)
}

/// Asset path of the preview background at `idx`.
pub fn background_asset(idx: usize) -> (path: String)
    requires
        idx < background_names_spec().len(),
    ensures
        path@ == "backgrounds/"@ + background_names_spec()[idx as int] + ".jpg"@,
{
    let names = background_names();
    assert(names@.map_values(|s: &'static str| s@)[idx as int] == names@[idx as int]@);
    join3("backgrounds/", names[idx], ".jpg")
}

/// What the page holds, as plain values.
pub struct SkinsPageView {
    pub active_tab: SkinTab,
    pub selected_skin: usize,
    pub equipped_skin: usize,
    pub selected_cape: usize,
    pub equipped_cape: usize,
    /// The player whose skin the community tab previews.
    pub online_user: Seq<char>,
    /// The preview background, by its position in the background list.
    pub bg_idx: usize,
    pub show_bg_selector: bool,
}

/// The state of the page.
#[derive(Debug)]
pub struct SkinsPage {
    active_tab: SkinTab,
    selected_skin: usize,
    equipped_skin: usize,
    selected_cape: usize,
    equipped_cape: usize,
    online_user: String,
    bg_idx: usize,
    show_bg_selector: bool,
}

impl View for SkinsPage {
    type V = SkinsPageView;

    closed spec fn view(&self) -> SkinsPageView {
        SkinsPageView {
            active_tab: self.active_tab,
            selected_skin: self.selected_skin,
            equipped_skin: self.equipped_skin,
            selected_cape: self.selected_cape,
            equipped_cape: self.equipped_cape,
            online_user: self.online_user@,
            bg_idx: self.bg_idx,
            show_bg_selector: self.show_bg_selector,
        }
    }
}

impl SkinsPage {
    /// The selected background is one of the backgrounds.
    #[verifier::type_invariant]
    spec fn background_exists(self) -> bool {
        self.bg_idx < background_names_spec().len()
    }

    /// The page as it opens: on the community tab, previewing Technoblade,
    /// with the first skin, cape and background, and the background picker
    /// closed.
    pub fn new() -> (p: Self)
        ensures
            p@ == (SkinsPageView {
                active_tab: SkinTab::OnlineSkins,
                selected_skin: 0,
                equipped_skin: 0,
                selected_cape: 0,
                equipped_cape: 0,
                online_user: "Technoblade"@,
                bg_idx: 0,
                show_bg_selector: false,
            }),
    {
        SkinsPage {
            active_tab: SkinTab::OnlineSkins,
            selected_skin: 0,
            equipped_skin: 0,
            selected_cape: 0,
            equipped_cape: 0,
            online_user: String::from_str("Technoblade"),
            bg_idx: 0,
            show_bg_selector: false,
        }
    }

    pub fn active_tab(&self) -> (t: SkinTab)
        ensures
            t == self@.active_tab,
    {
        self.active_tab
    }

    pub fn selected_skin(&self) -> (i: usize)
        ensures
            i == self@.selected_skin,
    {
        self.selected_skin
    }

    pub fn equipped_skin(&self) -> (i: usize)
        ensures
            i == self@.equipped_skin,
    {
        self.equipped_skin
    }

    pub fn selected_cape(&self) -> (i: usize)
        ensures
            i == self@.selected_cape,
    {
        self.selected_cape
    }

    pub fn equipped_cape(&self) -> (i: usize)
        ensures
            i == self@.equipped_cape,
    {
        self.equipped_cape
    }

    pub fn online_user(&self) -> (u: &str)
        ensures
            u@ == self@.online_user,
    {
        self.online_user.as_str()
    }

    pub fn bg_idx(&self) -> (i: usize)
        ensures
            i == self@.bg_idx,
            i < background_names_spec().len(),
    {
        proof {
            use_type_invariant(self);
        }
        self.bg_idx
    }

    pub fn show_bg_selector(&self) -> (b: bool)
        ensures
            b == self@.show_bg_selector,
    {
        self.show_bg_selector
    }

    /// Switches to `tab`.
    pub fn select_tab(&mut self, tab: SkinTab)
        ensures
            final(self)@ == (SkinsPageView { active_tab: tab, ..old(self)@ }),
    {
        proof {
            use_type_invariant(&*self);
        }
        self.active_tab = tab;
    }

    /// Selects the built-in skin at `idx`.
    pub fn select_skin(&mut self, idx: usize)
        ensures
            final(self)@ == (SkinsPageView { selected_skin: idx, ..old(self)@ }),
    {
        proof {
            use_type_invariant(&*self);
        }
        self.selected_skin = idx;
    }

    /// Selects the cape at `idx`.
    pub fn select_cape(&mut self, idx: usize)
        ensures
            final(self)@ == (SkinsPageView { selected_cape: idx, ..old(self)@ }),
    {
        proof {
            use_type_invariant(&*self);
        }
        self.selected_cape = idx;
    }

    /// Shows the background at `idx`; a position past the backgrounds
    /// changes nothing.
    pub fn select_background(&mut self, idx: usize)
        ensures
            final(self)@ == if idx < background_names_spec().len() {
                SkinsPageView { bg_idx: idx, ..old(self)@ }
            } else {
                old(self)@
            },
    {
        proof {
            use_type_invariant(&*self);
        }
        if idx < 5 {
            self.bg_idx = idx;
        }
    }

    /// Opens a closed background picker and closes an open one.
    pub fn toggle_bg_selector(&mut self)
        ensures
            final(self)@ == (SkinsPageView {
                show_bg_selector: !old(self)@.show_bg_selector,
                ..old(self)@
            }),
    {
        proof {
            use_type_invariant(&*self);
        }
        self.show_bg_selector = !self.show_bg_selector;
    }

    /// The player the 3D preview shows: on the community tab the previewed
    /// player, elsewhere the signed-in account, if there is one.
    pub fn preview_target(&self, account_uuid: Option<String>) -> (t: Option<String>)
        ensures
            opt_view(t) == if self@.active_tab == SkinTab::OnlineSkins {
                Some(self@.online_user)
            } else {
                opt_view(account_uuid)
            },
    {
        match self.active_tab {
            SkinTab::OnlineSkins => Some(self.online_user.clone()),
            _ => account_uuid,
        }
    }

    /// Previews the player that a search for `input` names; an input of white
    /// space only changes nothing.
    pub fn submit_search(&mut self, input: &str)
        ensures
            final(self)@ == match search_target_spec(input@) {
                Some(t) => SkinsPageView { online_user: t, ..old(self)@ },
                None => old(self)@,
            },
    {
        proof {
            use_type_invariant(&*self);
        }
        match search_target(input) {
            Some(t) => {
                self.online_user = t;
            },
            None => {},
        }
    }

    /// Previews the community skin of `username`.
    pub fn view_community(&mut self, username: &str)
        ensures
            final(self)@ == (SkinsPageView { online_user: username@, ..old(self)@ }),
    {
        proof {
            use_type_invariant(&*self);
        }
        self.online_user = String::from_str(username);
    }

    /// Equips the selected skin, and gives the body of the notice that says so.
    pub fn equip_selected_skin(&mut self) -> (body: String)
        ensures
            final(self)@ == (SkinsPageView { equipped_skin: old(self)@.selected_skin, ..old(self)@ }),
            body@ == "Applied "@ + (if old(self)@.selected_skin < preset_skins_spec().len() {
                preset_skins_spec()[old(self)@.selected_skin as int].0
            } else {
                "Skin"@
            }) + " as your active skin"@,
    {
        proof {
            use_type_invariant(&*self);
        }
        let curr = self.selected_skin;
        self.equipped_skin = curr;
        let name = preset_skin_name_or(curr, "Skin");
        skin_applied_body(name)
    }

    /// Equips the selected cape, and gives the body of the notice that says so.
    pub fn equip_selected_cape(&mut self) -> (body: String)
        ensures
            final(self)@ == (SkinsPageView { equipped_cape: old(self)@.selected_cape, ..old(self)@ }),
            body@ == (if old(self)@.selected_cape < preset_capes_spec().len() {
                preset_capes_spec()[old(self)@.selected_cape as int].0
            } else {
                "Cape"@
            }) + " is now active on your character!"@,
    {
        proof {
            use_type_invariant(&*self);
        }
        let curr = self.selected_cape;
        self.equipped_cape = curr;
        let name = preset_cape_name_or(curr, "Cape");
        cape_equipped_body(name)
    }

    /// Name of the skin the preview panel names.
    pub fn preview_skin_name(&self) -> (name: &'static str)
        ensures
            name@ == if self@.selected_skin < preset_skins_spec().len() {
                preset_skins_spec()[self@.selected_skin as int].0
            } else {
                "Steve"@
            },
    {
        preset_skin_name_or(self.selected_skin, "Steve")
    }

    /// Name of the cape the preview panel names.
    pub fn preview_cape_name(&self) -> (name: &'static str)
        ensures
            name@ == if self@.selected_cape < preset_capes_spec().len() {
                preset_capes_spec()[self@.selected_cape as int].0
            } else {
                "Founder"@
            },
    {
        preset_cape_name_or(self.selected_cape, "Founder")
    }

    /// Asset path of the selected preview background.
    pub fn background_asset(&self) -> (path: String)
        ensures
            path@ == "backgrounds/"@ + background_names_spec()[self@.bg_idx as int] + ".jpg"@,
    {
        proof {
            use_type_invariant(self);
        }
        background_asset(self.bg_idx)
    }
}

} // verus!
