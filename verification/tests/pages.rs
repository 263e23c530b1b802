use oneclient_logic::account::{can_continue, offline_username, OfflineSignIn};
use oneclient_logic::create_form::{
    loader_for_index, loader_options, version_options, CreateInstanceForm, GameLoader,
};
use oneclient_logic::fonts::{collect_fonts, font_table};
use oneclient_logic::instance_card::{card_border_tone, card_border_width, BorderTone};
use oneclient_logic::player_model::{model_caption, render_url, PlayerModel};
use oneclient_logic::skins::{
    animation_names, background_names, community_skins, is_viewing, minotar_skin_url,
    namemc_profile_url, preset_cape_name_or, preset_capes, preset_skin_name_or, preset_skins,
    search_target, skin_applied_body, viewing_label, SkinTab, SkinsPage, Rgb,
    online_skin_equipped_body, cape_equipped_body, texture_opened_body, skin_imported_body,
};

#[test]
fn loader_picker_maps_entries_and_falls_back_to_vanilla() {
    assert_eq!(loader_for_index(0), GameLoader::Vanilla);
    assert_eq!(loader_for_index(1), GameLoader::Fabric);
    assert_eq!(loader_for_index(2), GameLoader::Forge);
    assert_eq!(loader_for_index(3), GameLoader::NeoForge);
    assert_eq!(loader_for_index(4), GameLoader::Quilt);
    assert_eq!(loader_for_index(5), GameLoader::Vanilla);
    assert_eq!(loader_for_index(usize::MAX), GameLoader::Vanilla);
    assert_eq!(loader_options(), vec!["Vanilla", "Fabric", "Forge", "NeoForge", "Quilt"]);
}

#[test]
fn versions_default_when_metadata_names_none() {
    assert_eq!(version_options(&vec![None, None]), vec!["1.21.1".to_string()]);
    assert_eq!(version_options(&vec![]), vec!["1.21.1".to_string()]);
    assert_eq!(
        version_options(&vec![Some("1.20.4".to_string()), None, Some("1.21.4".to_string())]),
        vec!["1.20.4".to_string(), "1.21.4".to_string()]
    );
}

#[test]
fn the_create_form_opens_picks_and_submits() {
    let mut form = CreateInstanceForm::new();
    assert!(!form.show);
    assert_eq!(form.name, "Custom Instance");
    assert_eq!(form.version, "1.21.1");
    assert_eq!(form.loader, GameLoader::Fabric);
    assert_eq!(form.toggle_label(), "Add Custom Instance");
    form.toggle();
    assert!(form.show);
    assert_eq!(form.toggle_label(), "Cancel");
    let options = vec!["1.20.1".to_string(), "1.21.4".to_string()];
    form.select_version(&options, 1);
    assert_eq!(form.version, "1.21.4");
    form.select_version(&options, 7);
    assert_eq!(form.version, "1.21.4");
    form.select_loader(3);
    form.name = "Skyblock".to_string();
    let req = form.submit();
    assert_eq!(req.name, "Skyblock");
    assert_eq!(req.version, "1.21.4");
    assert_eq!(req.loader, GameLoader::NeoForge);
    assert!(!form.show);
}

#[test]
fn offline_usernames_need_three_bytes_after_trimming() {
    assert_eq!(offline_username("ab"), None);
    assert_eq!(offline_username("  ab  "), None);
    assert_eq!(offline_username(" Steve "), Some("Steve".to_string()));
    assert_eq!(offline_username("abc"), Some("abc".to_string()));
    assert_eq!(offline_username("é"), None);
    assert_eq!(offline_username("éa"), Some("éa".to_string()));
    assert_eq!(offline_username("€"), Some("€".to_string()));
    assert_eq!(offline_username("\u{3000}\u{3000}"), None);
    assert!(!can_continue(false, " x "));
    assert!(can_continue(true, ""));
    assert!(can_continue(false, "Notch"));
}

#[test]
fn a_confirmed_sign_in_is_pending_until_settled() {
    let mut step = OfflineSignIn::new();
    assert_eq!(step.confirm("no"), None);
    assert!(!step.submitted);
    assert_eq!(step.confirm(" Alex"), Some("Alex".to_string()));
    assert!(step.submitted);
    assert!(!step.observe_request(false));
    assert!(step.submitted);
    assert!(step.observe_request(true));
    assert!(!step.submitted);
    assert!(!step.observe_request(true));
    assert!(!step.submitted);
}

#[test]
fn catalogues_hold_their_entries() {
    let skins = preset_skins();
    assert_eq!(skins.len(), 8);
    assert_eq!(skins[0].name, "Steve");
    assert_eq!(skins[7].tag, "Legendary");
    let community = community_skins();
    assert_eq!(community.len(), 10);
    assert_eq!(community[8].username, "jeb_");
    assert_eq!(community[8].title, "Jens Bergensten");
    let capes = preset_capes();
    assert_eq!(capes.len(), 8);
    assert_eq!(capes[1].color_hint, Rgb { r: 255, g: 183, b: 3 });
    assert_eq!(background_names().len(), 5);
    assert_eq!(animation_names()[0], "Idle");
}

#[test]
fn names_fall_back_past_the_catalogue() {
    assert_eq!(preset_skin_name_or(1, "Steve"), "Alex");
    assert_eq!(preset_skin_name_or(8, "Steve"), "Steve");
    assert_eq!(preset_skin_name_or(99, "Skin"), "Skin");
    assert_eq!(preset_cape_name_or(0, "Founder"), "Polyfrost Founder");
    assert_eq!(preset_cape_name_or(8, "Cape"), "Cape");
}

#[test]
fn community_match_ignores_ascii_case() {
    let community = community_skins();
    assert!(is_viewing("technoblade", &community[0]));
    assert!(is_viewing("D3KN", &community[6]));
    assert!(!is_viewing("Dreams", &community[1]));
}

#[test]
fn searches_trim_and_ignore_blank_input() {
    assert_eq!(search_target("  Dream \n"), Some("Dream".to_string()));
    assert_eq!(search_target("   "), None);
    let mut page = SkinsPage::new();
    assert_eq!(page.online_user(), "Technoblade");
    page.submit_search("\t");
    assert_eq!(page.online_user(), "Technoblade");
    page.submit_search(" Grian ");
    assert_eq!(page.online_user(), "Grian");
    page.view_community("Notch");
    assert_eq!(page.online_user(), "Notch");
}

#[test]
fn the_preview_follows_the_tab() {
    let mut page = SkinsPage::new();
    assert_eq!(page.active_tab(), SkinTab::OnlineSkins);
    assert_eq!(page.preview_target(Some("uuid-1".to_string())), Some("Technoblade".to_string()));
    page.select_tab(SkinTab::Capes);
    assert_eq!(page.active_tab(), SkinTab::Capes);
    assert_eq!(page.preview_target(Some("uuid-1".to_string())), Some("uuid-1".to_string()));
    assert_eq!(page.preview_target(None), None);
}

#[test]
fn equipping_copies_the_selection_and_names_it() {
    let mut page = SkinsPage::new();
    page.select_skin(2);
    assert_eq!(page.preview_skin_name(), "Cyber Knight");
    assert_eq!(page.equip_selected_skin(), "Applied Cyber Knight as your active skin");
    assert_eq!(page.equipped_skin(), 2);
    page.select_skin(40);
    assert_eq!(page.preview_skin_name(), "Steve");
    assert_eq!(page.equip_selected_skin(), "Applied Skin as your active skin");
    page.select_cape(6);
    assert_eq!(page.preview_cape_name(), "Void Nebula");
    assert_eq!(page.equip_selected_cape(), "Void Nebula is now active on your character!");
    assert_eq!(page.equipped_cape(), 6);
    page.select_cape(8);
    assert_eq!(page.preview_cape_name(), "Founder");
    assert_eq!(page.equip_selected_cape(), "Cape is now active on your character!");
}

#[test]
fn links_and_notices_are_spelled_out() {
    assert_eq!(namemc_profile_url("Dream"), "https://namemc.com/profile/Dream");
    assert_eq!(minotar_skin_url("Dream"), "https://minotar.net/skin/Dream");
    assert_eq!(online_skin_equipped_body("Dream"), "Dream's skin is now active on your character!");
    assert_eq!(skin_applied_body("Grian"), "Applied Grian as your active skin");
    assert_eq!(cape_equipped_body("Void Nebula"), "Void Nebula is now active on your character!");
    assert_eq!(texture_opened_body("Notch"), "Opened full skin texture for Notch");
    assert_eq!(skin_imported_body("me.png"), "Loaded me.png");
    assert_eq!(viewing_label("Skeppy"), "Viewing Skin: Skeppy");
    let mut page = SkinsPage::new();
    assert_eq!(page.background_asset(), "backgrounds/CavesAndCliffs.jpg");
    page.select_background(4);
    assert_eq!(page.bg_idx(), 4);
    assert_eq!(page.background_asset(), "backgrounds/TrickyTrials.jpg");
    page.select_background(5);
    assert_eq!(page.bg_idx(), 4);
    assert!(!page.show_bg_selector());
    page.toggle_bg_selector();
    assert!(page.show_bg_selector());
    page.toggle_bg_selector();
    assert!(!page.show_bg_selector());
}

#[test]
fn the_player_preview_builds_and_captions() {
    let m: PlayerModel<u32> = PlayerModel::new("abc".to_string(), 0);
    assert_eq!(m.width, 0);
    assert_eq!(m.height, 0);
    assert_eq!(m.clone(), PlayerModel::new("abc".to_string(), 5).width(0).height(0));
    assert_ne!(m.clone(), PlayerModel::new("abd".to_string(), 0));
    assert_eq!(PlayerModel::new("abc".to_string(), 7u32), PlayerModel::new("abc".to_string(), 7u32).width(7).height(7));
    let m = m.width(300).height(400);
    assert_eq!((m.uuid.as_str(), m.width, m.height), ("abc", 300, 400));
    assert_eq!(render_url("abc"), "https://visage.surgeplay.com/full/512/abc");
    assert_eq!(model_caption(None, false), Some("Loading 3D Model..."));
    assert_eq!(model_caption(Some(0), false), Some("Error Loading 3D Model"));
    assert_eq!(model_caption(Some(10), false), Some("Loading 3D..."));
    assert_eq!(model_caption(Some(10), true), None);
}

#[test]
fn fonts_that_fail_to_load_are_left_out() {
    let table = font_table();
    assert_eq!(table.len(), 6);
    assert_eq!(table[4], ("Press Start 2P", "fonts/Pixel/PressStart2P.ttf"));
    let found = vec![Some(1u8), None, Some(3), None, None, Some(6)];
    assert_eq!(collect_fonts(&table, found), vec![("Inter", 1), ("Cairo", 3), ("JetBrains Mono", 6)]);
}

#[test]
fn card_borders_follow_activity_focus_and_hover() {
    assert_eq!(card_border_tone(true, false, true), BorderTone::Brand);
    assert_eq!(card_border_tone(false, true, false), BorderTone::Brand);
    assert_eq!(card_border_tone(false, false, true), BorderTone::Hover);
    assert_eq!(card_border_tone(false, false, false), BorderTone::Normal);
    assert_eq!(card_border_width(true), 2);
    assert_eq!(card_border_width(false), 1);
}
